use ssh_manager::error::SshError;
use ssh_manager::pump::{
    pump_step, Effect, PumpEvent, ReadOutcome, Request, IDLE_SLEEP_MILLIS, READ_BUFFER_LEN,
};
use ssh_manager::sftp::FileAttrs;
use ssh_manager::transfer::{
    begin, transfer_step, Direction, Phase, Progress, Transfer, TransferEvent, TRANSFER_BUFFER_LEN,
};
use ssh_manager::verbs::{
    delete_request, sftp_failure, touch_action, SftpRequest, TouchAction, DIRECTORY_MODE,
};

fn run_pump(id: &str, events: Vec<PumpEvent>) -> (Vec<Effect>, Request) {
    let mut pending = Request::CheckAlive;
    let mut effects = Vec::new();
    for event in events {
        let (effect, next) = pump_step(id, pending, event);
        effects.push(effect);
        pending = next;
    }
    (effects, pending)
}

fn data(bytes: &[u8]) -> PumpEvent {
    PumpEvent::Read(ReadOutcome::Data(bytes.to_vec()))
}

fn run_transfer(direction: Direction, events: Vec<TransferEvent>) -> (Progress, Vec<u8>) {
    let mut t = begin(direction);
    let mut last = Progress::Continue(t, Vec::new());
    let mut handed_on = Vec::new();
    for event in events {
        last = transfer_step(t, event);
        match &last {
            Progress::Continue(next, chunk) => {
                t = *next;
                handed_on.extend_from_slice(chunk);
            }
            Progress::Finished(_) => return (last, handed_on),
        }
    }
    (last, handed_on)
}

fn step(t: Transfer, event: TransferEvent) -> Transfer {
    match transfer_step(t, event) {
        Progress::Continue(next, _) => next,
        other => panic!("{:?}", other),
    }
}

#[test]
fn pump_constants() {
    assert_eq!(READ_BUFFER_LEN, 8192);
    assert_eq!(IDLE_SLEEP_MILLIS, 10);
    assert_eq!(TRANSFER_BUFFER_LEN, 32768);
    assert_eq!(DIRECTORY_MODE, 0o755);
}

#[test]
fn pump_reads_while_alive() {
    assert_eq!(
        pump_step("c", Request::CheckAlive, PumpEvent::Alive(true)),
        (Effect::Nothing, Request::Read { max: 8192 })
    );
    assert_eq!(
        pump_step("c", Request::CheckAlive, PumpEvent::Alive(false)),
        (Effect::Nothing, Request::Exit)
    );
}

#[test]
fn pump_publishes_data_as_text() {
    assert_eq!(
        pump_step("chan-1", Request::Read { max: 8192 }, data(b"hi\r\n")),
        (
            Effect::Output { channel_id: "chan-1".to_string(), data: "hi\r\n".to_string() },
            Request::CheckAlive
        )
    );
}

#[test]
fn pump_replaces_invalid_utf8() {
    assert_eq!(
        pump_step("c", Request::Read { max: 8192 }, data(&[0xff, b'h', 0xc3])),
        (
            Effect::Output { channel_id: "c".to_string(), data: "\u{fffd}h\u{fffd}".to_string() },
            Request::CheckAlive
        )
    );
    assert_eq!(
        pump_step("c", Request::Read { max: 8192 }, data(&[0xc3, 0xa9])),
        (Effect::Output { channel_id: "c".to_string(), data: "é".to_string() }, Request::CheckAlive)
    );
}

#[test]
fn pump_asks_for_eof_after_an_empty_read() {
    assert_eq!(pump_step("c", Request::Read { max: 8192 }, data(b"")), (Effect::Nothing, Request::QueryEof));
    assert_eq!(
        pump_step("c", Request::QueryEof, PumpEvent::Eof(false)),
        (Effect::Sleep { millis: 10 }, Request::CheckAlive)
    );
    assert_eq!(
        pump_step("c", Request::QueryEof, PumpEvent::Eof(true)),
        (Effect::Closed { channel_id: "c".to_string() }, Request::Exit)
    );
}

#[test]
fn pump_handles_read_errors() {
    assert_eq!(
        pump_step("c", Request::Read { max: 8192 }, PumpEvent::Read(ReadOutcome::WouldBlock)),
        (Effect::Sleep { millis: 10 }, Request::CheckAlive)
    );
    assert_eq!(
        pump_step("c", Request::Read { max: 8192 }, PumpEvent::Read(ReadOutcome::Interrupted)),
        (Effect::Nothing, Request::CheckAlive)
    );
    assert_eq!(
        pump_step("c", Request::Read { max: 8192 }, PumpEvent::Read(ReadOutcome::Failed)),
        (Effect::Closed { channel_id: "c".to_string() }, Request::Exit)
    );
}

#[test]
fn pump_ignores_what_it_did_not_ask_for() {
    assert_eq!(
        pump_step("c", Request::CheckAlive, data(b"x")),
        (Effect::Nothing, Request::CheckAlive)
    );
    assert_eq!(
        pump_step("c", Request::Read { max: 8192 }, PumpEvent::Eof(true)),
        (Effect::Nothing, Request::Read { max: 8192 })
    );
    assert_eq!(
        pump_step("c", Request::QueryEof, PumpEvent::Alive(false)),
        (Effect::Nothing, Request::QueryEof)
    );
    assert_eq!(
        pump_step("c", Request::Exit, PumpEvent::Read(ReadOutcome::Failed)),
        (Effect::Nothing, Request::Exit)
    );
    assert_eq!(pump_step("c", Request::Exit, PumpEvent::Alive(true)), (Effect::Nothing, Request::Exit));
}

#[test]
fn pump_output_keeps_the_order_of_the_reads() {
    let mut events = Vec::new();
    for n in 0..20u32 {
        events.push(PumpEvent::Alive(true));
        events.push(data(format!("{};", n).as_bytes()));
        if n % 3 == 0 {
            events.push(PumpEvent::Alive(true));
            events.push(PumpEvent::Read(ReadOutcome::WouldBlock));
        }
    }
    let (effects, pending) = run_pump("c", events);
    let mut seen = String::new();
    let mut frames = 0;
    for e in effects {
        if let Effect::Output { channel_id, data } = e {
            assert_eq!(channel_id, "c");
            seen.push_str(&data);
            frames += 1;
        }
    }
    assert_eq!(frames, 20);
    assert_eq!(seen, "0;1;2;3;4;5;6;7;8;9;10;11;12;13;14;15;16;17;18;19;");
    assert_eq!(pending, Request::CheckAlive);
}

#[test]
fn pump_closes_exactly_once() {
    let events = vec![
        PumpEvent::Alive(true),
        data(b"bye"),
        PumpEvent::Alive(true),
        data(b""),
        PumpEvent::Eof(true),
        PumpEvent::Alive(true),
        PumpEvent::Read(ReadOutcome::Failed),
        PumpEvent::Eof(true),
    ];
    let (effects, pending) = run_pump("c", events);
    let closed = effects.iter().filter(|e| matches!(e, Effect::Closed { .. })).count();
    assert_eq!(closed, 1);
    assert_eq!(effects[4], Effect::Closed { channel_id: "c".to_string() });
    assert_eq!(pending, Request::Exit);
}

#[test]
fn pump_stopped_by_the_flag_says_nothing() {
    let events = vec![PumpEvent::Alive(true), data(b"x"), PumpEvent::Alive(false)];
    let (effects, pending) = run_pump("c", events);
    assert_eq!(pending, Request::Exit);
    assert!(!effects.iter().any(|e| matches!(e, Effect::Closed { .. })));
}

#[test]
fn download_counts_what_it_writes() {
    let events = vec![
        TransferEvent::Done,
        TransferEvent::Done,
        TransferEvent::Read(vec![1u8; 32768]),
        TransferEvent::Done,
        TransferEvent::Read(vec![2u8; 100]),
        TransferEvent::Done,
        TransferEvent::Read(Vec::new()),
    ];
    let (end, handed_on) = run_transfer(Direction::Download, events);
    assert_eq!(end, Progress::Finished(Ok(32868)));
    let mut expected = vec![1u8; 32768];
    expected.extend_from_slice(&[2u8; 100]);
    assert_eq!(handed_on, expected);
}

#[test]
fn transfer_of_an_empty_file() {
    let events = vec![TransferEvent::Done, TransferEvent::Done, TransferEvent::Read(Vec::new())];
    let (end, handed_on) = run_transfer(Direction::Upload, events);
    assert_eq!(end, Progress::Finished(Ok(0)));
    assert!(handed_on.is_empty());
}

#[test]
fn transfer_phases_in_order() {
    let t = begin(Direction::Upload);
    assert_eq!(t, Transfer { direction: Direction::Upload, phase: Phase::OpenSource, total: 0 });
    let t = step(t, TransferEvent::Done);
    assert_eq!(t.phase, Phase::OpenSink);
    let t = step(t, TransferEvent::Done);
    assert_eq!(t.phase, Phase::Read { max: 32768 });
    let read = transfer_step(t, TransferEvent::Read(b"payload".to_vec()));
    let writing = Transfer { direction: Direction::Upload, phase: Phase::Write, total: 7 };
    assert_eq!(read, Progress::Continue(writing, b"payload".to_vec()));
    let t = step(writing, TransferEvent::Done);
    let reading =
        Transfer { direction: Direction::Upload, phase: Phase::Read { max: 32768 }, total: 7 };
    assert_eq!(t, reading);
}

#[test]
fn transfer_ignores_what_it_did_not_ask_for() {
    let t = begin(Direction::Download);
    let unasked = TransferEvent::Read(vec![0u8; 5]);
    assert_eq!(transfer_step(t, unasked.clone()), Progress::Continue(t, Vec::new()));
    let reading =
        Transfer { direction: Direction::Download, phase: Phase::Read { max: 32768 }, total: 3 };
    assert_eq!(transfer_step(reading, TransferEvent::Done), Progress::Continue(reading, Vec::new()));
    let writing = Transfer { direction: Direction::Download, phase: Phase::Write, total: 3 };
    assert_eq!(transfer_step(writing, unasked), Progress::Continue(writing, Vec::new()));
}

#[test]
fn download_failures_by_side() {
    let fail = |phase: Phase| {
        let t = Transfer { direction: Direction::Download, phase, total: 10 };
        transfer_step(t, TransferEvent::Failed("no".to_string()))
    };
    assert_eq!(
        fail(Phase::OpenSource),
        Progress::Finished(Err(SshError::ChannelError("Failed to open remote file: no".to_string())))
    );
    assert_eq!(fail(Phase::OpenSink), Progress::Finished(Err(SshError::IoError("no".to_string()))));
    assert_eq!(
        fail(Phase::Read { max: 32768 }),
        Progress::Finished(Err(SshError::ChannelError("Failed to read remote file: no".to_string())))
    );
    assert_eq!(
        fail(Phase::Write),
        Progress::Finished(Err(SshError::IoError("no".to_string())))
    );
}

#[test]
fn upload_failures_by_side() {
    let fail = |phase: Phase| {
        let t = Transfer { direction: Direction::Upload, phase, total: 10 };
        transfer_step(t, TransferEvent::Failed("no".to_string()))
    };
    assert_eq!(fail(Phase::OpenSource), Progress::Finished(Err(SshError::IoError("no".to_string()))));
    assert_eq!(
        fail(Phase::OpenSink),
        Progress::Finished(Err(SshError::ChannelError(
            "Failed to create remote file: no".to_string()
        )))
    );
    assert_eq!(
        fail(Phase::Read { max: 32768 }),
        Progress::Finished(Err(SshError::IoError("no".to_string())))
    );
    assert_eq!(
        fail(Phase::Write),
        Progress::Finished(Err(SshError::ChannelError(
            "Failed to write remote file: no".to_string()
        )))
    );
}

#[test]
fn sftp_failures_are_channel_errors() {
    let cases = [
        (SftpRequest::Init, "SFTP init failed: r"),
        (SftpRequest::ReadDir, "Failed to read directory: r"),
        (SftpRequest::OpenFile, "Failed to open remote file: r"),
        (SftpRequest::CreateFile, "Failed to create remote file: r"),
        (SftpRequest::ReadFile, "Failed to read remote file: r"),
        (SftpRequest::WriteFile, "Failed to write remote file: r"),
        (SftpRequest::Mkdir, "Failed to create directory: r"),
        (SftpRequest::Rmdir, "Failed to delete directory: r"),
        (SftpRequest::Unlink, "Failed to delete file: r"),
        (SftpRequest::Rename, "Failed to rename: r"),
        (SftpRequest::Stat, "Failed to stat: r"),
        (SftpRequest::SetTimes, "Failed to set file times: r"),
    ];
    for (request, detail) in cases {
        assert_eq!(sftp_failure(request, "r"), SshError::ChannelError(detail.to_string()));
    }
    assert_eq!(
        sftp_failure(SftpRequest::Stat, "no such file").message(),
        "Channel error: Failed to stat: no such file"
    );
}

#[test]
fn delete_picks_the_request() {
    assert_eq!(delete_request(true), SftpRequest::Rmdir);
    assert_eq!(delete_request(false), SftpRequest::Unlink);
}

#[test]
fn touch_creates_or_sets_times() {
    assert_eq!(touch_action(None, 1000), TouchAction::Create);
    let attrs = FileAttrs {
        size: Some(5),
        uid: None,
        gid: None,
        perm: Some(0o100644),
        atime: Some(17),
        mtime: Some(18),
    };
    assert_eq!(touch_action(Some(attrs), 1000), TouchAction::SetTimes { atime: 17, mtime: 1000 });
    let bare = FileAttrs { size: None, uid: None, gid: None, perm: None, atime: None, mtime: None };
    assert_eq!(touch_action(Some(bare), 1000), TouchAction::SetTimes { atime: 1000, mtime: 1000 });
}
