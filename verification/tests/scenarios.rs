use ssh_manager::channel::ChannelOp;
use ssh_manager::connect::{plan_connect, ConnectParams, ConnectStep, Credentials};
use ssh_manager::error::SshError;
use ssh_manager::manager::SshManager;
use ssh_manager::path::{needs_home, resolve_path};
use ssh_manager::pump::{pump_step, Effect, PumpEvent, ReadOutcome, Request};
use ssh_manager::sftp::{build_listing, stat_entry, FileAttrs, RemoteEntry};
use ssh_manager::transfer::{begin, transfer_step, Direction, Phase, Progress, TransferEvent};

fn direct_params() -> ConnectParams {
    ConnectParams {
        host: "127.0.0.1".to_string(),
        port: 2222,
        username: "user".to_string(),
        auth_method: "password".to_string(),
        password: Some("pw".to_string()),
        private_key_path: None,
        private_key_passphrase: None,
        jump_host: None,
        jump_port: None,
        jump_username: None,
        jump_password: None,
        cols: Some(80),
        rows: Some(24),
    }
}

fn copy(direction: Direction, source: &[u8]) -> (Result<u64, SshError>, Vec<u8>) {
    let mut t = begin(direction);
    let mut at = 0;
    let mut written = Vec::new();
    let mut event = TransferEvent::Done;
    loop {
        match transfer_step(t, event) {
            Progress::Finished(r) => return (r, written),
            Progress::Continue(next, chunk) => {
                t = next;
                event = match t.phase {
                    Phase::Read { max } => {
                        let n = (source.len() - at).min(max);
                        at += n;
                        TransferEvent::Read(source[at - n..at].to_vec())
                    }
                    Phase::Write => {
                        written.extend_from_slice(&chunk);
                        TransferEvent::Done
                    }
                    _ => TransferEvent::Done,
                };
            }
        }
    }
}

#[test]
fn direct_connect_and_echo() {
    let plan = plan_connect(&direct_params(), None).unwrap();
    assert_eq!((plan.host.as_str(), plan.port), ("127.0.0.1", 2222));
    assert_eq!((plan.cols, plan.rows), (80, 24));
    assert_eq!(
        plan.credentials,
        Credentials::Password { username: "user".to_string(), password: "pw".to_string() }
    );
    assert_eq!(plan.steps()[0], ConnectStep::TcpConnect);

    let mut manager: SshManager<&str> = SshManager::new();
    let id = manager.reserve().unwrap();
    assert!(!manager.contains(&id));
    manager.insert(id.clone(), "session");
    assert!(manager.contains(&id));
    let (_, script) = manager.send_command(&id, "echo hi\n").unwrap();
    assert_eq!(script.payload().as_slice(), b"echo hi\n");

    let echoed = PumpEvent::Read(ReadOutcome::Data(b"echo hi\r\nhi\r\n".to_vec()));
    let (effect, _) = pump_step(&id, Request::Read { max: 8192 }, echoed);
    match effect {
        Effect::Output { channel_id, data } => {
            assert_eq!(channel_id, id);
            assert!(data.contains("hi"));
        }
        other => panic!("{:?}", other),
    }
}

#[test]
fn jump_host_connect() {
    let mut p = direct_params();
    p.host = "10.0.0.5".to_string();
    p.port = 22;
    p.jump_host = Some("bastion".to_string());
    p.jump_port = Some(22);
    p.jump_username = Some("u".to_string());
    p.jump_password = Some("p".to_string());
    let plan = plan_connect(&p, None).unwrap();
    let jump = plan.jump.clone().unwrap();
    assert_eq!((jump.host.as_str(), jump.port), ("bastion", 22));
    assert_eq!((jump.username.as_str(), jump.password.as_str()), ("u", "p"));
    assert_eq!((plan.host.as_str(), plan.port), ("10.0.0.5", 22));
    let steps = plan.steps();
    let tunnel = steps.iter().position(|s| *s == ConnectStep::OpenTunnel).unwrap();
    let shell = steps.iter().position(|s| *s == ConnectStep::StartShell).unwrap();
    let handshake = steps.iter().position(|s| *s == ConnectStep::Handshake).unwrap();
    assert!(tunnel < handshake && handshake < shell);
    assert_eq!(steps.iter().filter(|s| **s == ConnectStep::StartShell).count(), 1);
}

#[test]
fn resize_after_connect() {
    let mut manager: SshManager<u8> = SshManager::new();
    manager.insert("chan".to_string(), 0);
    let (_, mut script) = manager.resize("chan", 120, 40).unwrap();
    script.record(None);
    assert_eq!(script.current(), Some(ChannelOp::WindowChange { cols: 120, rows: 40 }));
}

#[test]
fn directory_listing_of_home() {
    assert!(needs_home("~"));
    let resolved = resolve_path("~", Some("/home/user"));
    let raw = vec![
        RemoteEntry {
            path: "/home/user/notes.txt".to_string(),
            attrs: FileAttrs {
                size: Some(3),
                uid: Some(1000),
                gid: Some(1000),
                perm: Some(0o100644),
                atime: Some(1),
                mtime: Some(2),
            },
        },
        RemoteEntry {
            path: "/home/user/src".to_string(),
            attrs: FileAttrs {
                size: Some(4096),
                uid: Some(1000),
                gid: Some(1000),
                perm: Some(0o040755),
                atime: Some(1),
                mtime: Some(2),
            },
        },
    ];
    let listing = build_listing(&resolved, &raw);
    assert!(!listing.current_path.ends_with('/'));
    assert_eq!(listing.parent_path, Some("/home".to_string()));
    assert!(listing.entries[0].is_dir);
    assert!(!listing.entries[1].is_dir);
    assert_eq!(listing.entries[0].permissions, "rwxr-xr-x");
}

#[test]
fn round_trip_upload() {
    let mut local = Vec::new();
    let mut seed: u32 = 12345;
    for _ in 0..100_000 {
        seed = seed.wrapping_mul(1_103_515_245).wrapping_add(12345);
        local.push((seed >> 16) as u8);
    }
    let (sent, remote) = copy(Direction::Upload, &local);
    assert_eq!(sent, Ok(100_000));
    assert_eq!(remote, local);
    let (fetched, second) = copy(Direction::Download, &remote);
    assert_eq!(fetched, Ok(100_000));
    assert_eq!(second, local);
    let attrs = FileAttrs {
        size: Some(100_000),
        uid: None,
        gid: None,
        perm: Some(0o100644),
        atime: None,
        mtime: None,
    };
    assert_eq!(stat_entry("/tmp/blob.bin", &attrs).size, 100_000);
}

#[test]
fn graceful_close() {
    let mut manager: SshManager<u8> = SshManager::new();
    manager.insert("chan".to_string(), 0);
    let (_, script) = manager.send_command("chan", "exit\n").unwrap();
    assert_eq!(script.payload().as_slice(), b"exit\n");

    let events = vec![
        PumpEvent::Alive(true),
        PumpEvent::Read(ReadOutcome::Data(b"logout\r\n".to_vec())),
        PumpEvent::Alive(true),
        PumpEvent::Read(ReadOutcome::Data(Vec::new())),
        PumpEvent::Eof(true),
    ];
    let mut pending = Request::CheckAlive;
    let mut closed = Vec::new();
    for event in events {
        let (effect, next) = pump_step("chan", pending, event);
        if let Effect::Closed { channel_id } = effect {
            closed.push(channel_id);
        }
        pending = next;
    }
    assert_eq!(closed, vec!["chan".to_string()]);
    assert_eq!(pending, Request::Exit);
    let closed_effect = Effect::Closed { channel_id: "chan".to_string() };
    assert_eq!(manager.reader_effect(&closed_effect), Some(0));
    assert!(!manager.contains("chan"));
    assert_eq!(
        manager.send_command("chan", "ls\n").err(),
        Some(SshError::SessionNotFound("chan".to_string()))
    );
    assert_eq!(
        manager.disconnect("chan").err(),
        Some(SshError::SessionNotFound("chan".to_string()))
    );
}
