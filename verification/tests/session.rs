use ssh_manager::channel::{ChannelOp, Script};
use ssh_manager::connect::{
    credentials, expand_home, jump_host, plan_connect, step_failure, ConnectParams, ConnectStep,
    Credentials, JumpHost, CONNECT_TIMEOUT_SECS, DEFAULT_COLS, DEFAULT_JUMP_PORT, DEFAULT_ROWS,
    READ_TIMEOUT_MILLIS, WRITE_TIMEOUT_SECS,
};
use ssh_manager::error::{describe, ErrorKind, SshError};
use ssh_manager::pump::Effect;
use ssh_manager::manager::SshManager;

fn params(method: &str) -> ConnectParams {
    ConnectParams {
        host: "example.org".to_string(),
        port: 22,
        username: "alice".to_string(),
        auth_method: method.to_string(),
        password: Some("secret".to_string()),
        private_key_path: None,
        private_key_passphrase: None,
        jump_host: None,
        jump_port: None,
        jump_username: None,
        jump_password: None,
        cols: None,
        rows: None,
    }
}

fn run_all(mut script: Script, failing: &[ChannelOp]) -> (Vec<ChannelOp>, Result<(), SshError>) {
    let mut done = Vec::new();
    while let Some(op) = script.current() {
        done.push(op);
        if failing.contains(&op) {
            script.record(Some("broken pipe"));
        } else {
            script.record(None);
        }
    }
    (done, script.outcome())
}

#[test]
fn error_messages_name_their_kind() {
    assert_eq!(SshError::ConnectionFailed("x".to_string()).message(), "Connection failed: x");
    assert_eq!(SshError::AuthFailed("x".to_string()).message(), "Authentication failed: x");
    assert_eq!(SshError::ChannelError("x".to_string()).message(), "Channel error: x");
    assert_eq!(SshError::IoError("x".to_string()).message(), "IO error: x");
    assert_eq!(SshError::PtyError("x".to_string()).message(), "PTY error: x");
    assert_eq!(SshError::SessionNotFound("abc".to_string()).message(), "Session not found: abc");
}

#[test]
fn error_kind_and_detail() {
    let e = SshError::new(ErrorKind::PtyError, "Resize failed: no".to_string());
    assert_eq!(e, SshError::PtyError("Resize failed: no".to_string()));
    assert_eq!(e.kind(), ErrorKind::PtyError);
    assert_eq!(e.detail(), "Resize failed: no");
    assert_eq!(SshError::new(ErrorKind::IoError, String::new()).kind(), ErrorKind::IoError);
    assert_eq!(
        SshError::new(ErrorKind::SessionNotFound, "id".to_string()),
        SshError::SessionNotFound("id".to_string())
    );
    assert_eq!(
        SshError::new(ErrorKind::ConnectionFailed, "a".to_string()).kind(),
        ErrorKind::ConnectionFailed
    );
    assert_eq!(SshError::new(ErrorKind::AuthFailed, "a".to_string()).kind(), ErrorKind::AuthFailed);
    assert_eq!(
        SshError::new(ErrorKind::ChannelError, "a".to_string()).kind(),
        ErrorKind::ChannelError
    );
    assert_eq!(describe("lead: ", "why"), "lead: why");
}

#[test]
fn registry_starts_empty() {
    let m: SshManager<u32> = SshManager::new();
    assert!(!m.contains("a"));
    assert_eq!(m.get("a"), Err(SshError::SessionNotFound("a".to_string())));
}

#[test]
fn registry_insert_then_get() {
    let mut m: SshManager<u32> = SshManager::new();
    assert!(!m.contains("one"));
    m.insert("one".to_string(), 1);
    m.insert("two".to_string(), 2);
    assert!(m.contains("one"));
    assert_eq!(m.get("one"), Ok(&1));
    assert_eq!(m.get("two"), Ok(&2));
    assert_eq!(m.get("three"), Err(SshError::SessionNotFound("three".to_string())));
}

#[test]
fn registry_insert_replaces_same_id() {
    let mut m: SshManager<u32> = SshManager::new();
    m.insert("one".to_string(), 1);
    m.insert("two".to_string(), 2);
    m.insert("one".to_string(), 11);
    assert_eq!(m.get("one"), Ok(&11));
    assert_eq!(m.get("two"), Ok(&2));
    assert_eq!(m.remove("one"), Some(11));
    assert_eq!(m.remove("one"), None);
}

#[test]
fn registry_remove_leaves_the_others() {
    let mut m: SshManager<u32> = SshManager::new();
    m.insert("a".to_string(), 1);
    m.insert("b".to_string(), 2);
    m.insert("c".to_string(), 3);
    assert_eq!(m.remove("b"), Some(2));
    assert_eq!(m.get("a"), Ok(&1));
    assert_eq!(m.get("c"), Ok(&3));
    assert!(!m.contains("b"));
    assert_eq!(m.remove("zzz"), None);
}

#[test]
fn verbs_fail_with_session_not_found_after_disconnect() {
    let mut m: SshManager<u32> = SshManager::new();
    let id = m.reserve().unwrap();
    assert!(!m.contains(&id));
    m.insert(id.clone(), 7);
    assert!(m.contains(&id));
    assert!(m.send_command(&id, "ls\n").is_ok());
    assert!(m.resize(&id, 100, 30).is_ok());
    assert_eq!(m.get_sftp(&id), Ok(&7));
    let (session, script) = m.disconnect(&id).unwrap();
    assert_eq!(session, 7);
    assert_eq!(script.current(), Some(ChannelOp::MarkClosed));
    let missing = SshError::SessionNotFound(id.clone());
    assert_eq!(m.send_command(&id, "ls\n").err(), Some(missing));
    assert_eq!(m.resize(&id, 100, 30).err(), Some(SshError::SessionNotFound(id.clone())));
    assert_eq!(m.get_sftp(&id), Err(SshError::SessionNotFound(id.clone())));
    assert_eq!(m.get(&id), Err(SshError::SessionNotFound(id.clone())));
    assert_eq!(m.disconnect(&id).err(), Some(SshError::SessionNotFound(id.clone())));
}

#[test]
fn disconnect_of_an_unknown_id_is_session_not_found() {
    let mut m: SshManager<u8> = SshManager::new();
    assert_eq!(m.disconnect("nope").err(), Some(SshError::SessionNotFound("nope".to_string())));
    assert!(!m.contains("nope"));
    m.insert("a".to_string(), 1);
    assert_eq!(m.disconnect("nope").err(), Some(SshError::SessionNotFound("nope".to_string())));
    assert_eq!(m.get("a"), Ok(&1));
}

#[test]
fn reader_effect_takes_a_closed_session_out() {
    let mut m: SshManager<u8> = SshManager::new();
    m.insert("a".to_string(), 1);
    m.insert("b".to_string(), 2);
    let output = Effect::Output { channel_id: "a".to_string(), data: "x".to_string() };
    assert_eq!(m.reader_effect(&output), None);
    assert_eq!(m.reader_effect(&Effect::Sleep { millis: 10 }), None);
    assert_eq!(m.reader_effect(&Effect::Nothing), None);
    assert!(m.contains("a"));
    assert_eq!(m.reader_effect(&Effect::Closed { channel_id: "a".to_string() }), Some(1));
    assert!(!m.contains("a"));
    assert_eq!(m.get("b"), Ok(&2));
    assert_eq!(m.reader_effect(&Effect::Closed { channel_id: "a".to_string() }), None);
    assert_eq!(m.send_command("a", "x").err(), Some(SshError::SessionNotFound("a".to_string())));
}

#[test]
fn drawn_bytes_give_a_version_4_uuid() {
    let mut m: SshManager<u8> = SshManager::new();
    let bytes = [70, 235, 208, 238, 14, 109, 67, 201, 185, 13, 204, 195, 90, 145, 63, 62];
    assert_eq!(m.reserve_drawn(&bytes), Some("46ebd0ee-0e6d-43c9-b90d-ccc35a913f3e".to_string()));
    assert_eq!(
        m.reserve_drawn(&[0u8; 16]),
        Some("00000000-0000-4000-8000-000000000000".to_string())
    );
    assert_eq!(
        m.reserve_drawn(&[0xff; 16]),
        Some("ffffffff-ffff-4fff-bfff-ffffffffffff".to_string())
    );
}

#[test]
fn an_id_is_never_given_twice() {
    let mut m: SshManager<u8> = SshManager::new();
    let bytes = [7u8; 16];
    let id = m.reserve_drawn(&bytes).unwrap();
    assert!(!m.contains(&id));
    assert_eq!(m.reserve_drawn(&bytes), None);
    m.insert(id.clone(), 1);
    assert_eq!(m.reserve_drawn(&bytes), None);
    assert!(m.disconnect(&id).is_ok());
    assert_eq!(m.reserve_drawn(&bytes), None);
    let mut same = bytes;
    same[6] = 0x47;
    same[8] = 0x87;
    assert_eq!(m.reserve_drawn(&same), None);
    m.insert("by-hand".to_string(), 2);
    assert!(m.reserve_drawn(&[8u8; 16]).is_some());
}

#[test]
fn channel_ids_have_uuid_form_and_differ() {
    let mut m: SshManager<u8> = SshManager::new();
    let a = m.reserve().unwrap();
    let b = m.reserve().unwrap();
    assert_ne!(a, b);
    for id in [a, b] {
        let chars: Vec<char> = id.chars().collect();
        assert_eq!(chars.len(), 36);
        for (i, c) in chars.iter().enumerate() {
            if i == 8 || i == 13 || i == 18 || i == 23 {
                assert_eq!(*c, '-');
            } else {
                assert!(c.is_ascii_digit() || ('a'..='f').contains(c));
            }
        }
        assert_eq!(chars[14], '4');
        assert!("89ab".contains(chars[19]));
    }
}

#[test]
fn send_script_in_order() {
    let (done, result) = run_all(Script::send("echo hi\n"), &[]);
    assert_eq!(
        done,
        vec![
            ChannelOp::SetBlocking(true),
            ChannelOp::WriteAll,
            ChannelOp::Flush,
            ChannelOp::SetBlocking(false),
        ]
    );
    assert_eq!(result, Ok(()));
    assert_eq!(Script::send("echo hi\n").payload().as_slice(), b"echo hi\n");
    assert_eq!(Script::send("é").payload().as_slice(), &[0xc3, 0xa9]);
}

#[test]
fn send_script_restores_mode_after_failed_write() {
    let (done, result) = run_all(Script::send("x"), &[ChannelOp::WriteAll]);
    assert_eq!(
        done,
        vec![ChannelOp::SetBlocking(true), ChannelOp::WriteAll, ChannelOp::SetBlocking(false)]
    );
    assert_eq!(result, Err(SshError::IoError("broken pipe".to_string())));
}

#[test]
fn send_script_reports_failed_flush() {
    let (done, result) = run_all(Script::send("x"), &[ChannelOp::Flush]);
    assert_eq!(done.len(), 4);
    assert_eq!(result, Err(SshError::IoError("broken pipe".to_string())));
}

#[test]
fn script_keeps_the_first_failure() {
    let mut s = Script::send("x");
    s.record(None);
    s.record(Some("first"));
    assert_eq!(s.current(), Some(ChannelOp::SetBlocking(false)));
    s.record(Some("second"));
    assert_eq!(s.current(), None);
    s.record(Some("third"));
    assert_eq!(s.current(), None);
    assert_eq!(s.outcome(), Err(SshError::IoError("first".to_string())));
}

#[test]
fn resize_script_in_order() {
    let (done, result) = run_all(Script::resize(120, 40), &[]);
    assert_eq!(
        done,
        vec![
            ChannelOp::SetBlocking(true),
            ChannelOp::WindowChange { cols: 120, rows: 40 },
            ChannelOp::SetBlocking(false),
        ]
    );
    assert_eq!(result, Ok(()));
    assert!(Script::resize(1, 1).payload().is_empty());
}

#[test]
fn resize_script_reports_pty_error() {
    let failing = [ChannelOp::WindowChange { cols: 65535, rows: 1 }];
    let (done, result) = run_all(Script::resize(65535, 1), &failing);
    assert_eq!(done.len(), 3);
    assert_eq!(done[2], ChannelOp::SetBlocking(false));
    assert_eq!(result, Err(SshError::PtyError("Resize failed: broken pipe".to_string())));
}

#[test]
fn shutdown_script_ignores_failures() {
    let failing = [ChannelOp::SendEof, ChannelOp::Close, ChannelOp::WaitClose];
    let (done, result) = run_all(Script::shutdown(), &failing);
    assert_eq!(
        done,
        vec![ChannelOp::MarkClosed, ChannelOp::SendEof, ChannelOp::Close, ChannelOp::WaitClose]
    );
    assert_eq!(result, Ok(()));
}

#[test]
fn plan_defaults() {
    let plan = plan_connect(&params("password"), None).unwrap();
    assert_eq!(plan.jump, None);
    assert_eq!(plan.host, "example.org");
    assert_eq!(plan.port, 22);
    assert_eq!(plan.term, "xterm-256color");
    assert_eq!((plan.cols, plan.rows), (80, 24));
    assert_eq!((plan.width_px, plan.height_px), (0, 0));
    assert_eq!(plan.connect_timeout_secs, 30);
    assert_eq!(plan.read_timeout_millis, 100);
    assert_eq!(plan.write_timeout_secs, 10);
    assert!(plan.no_delay);
    assert_eq!(
        plan.credentials,
        Credentials::Password { username: "alice".to_string(), password: "secret".to_string() }
    );
    assert_eq!((DEFAULT_COLS, DEFAULT_ROWS, DEFAULT_JUMP_PORT), (80, 24, 22));
    assert_eq!((CONNECT_TIMEOUT_SECS, READ_TIMEOUT_MILLIS, WRITE_TIMEOUT_SECS), (30, 100, 10));
}

#[test]
fn plan_takes_the_given_size() {
    let mut p = params("password");
    p.cols = Some(132);
    p.rows = Some(50);
    let plan = plan_connect(&p, None).unwrap();
    assert_eq!((plan.cols, plan.rows), (132, 50));
}

#[test]
fn password_login_without_password_sends_an_empty_one() {
    let mut p = params("password");
    p.password = None;
    assert_eq!(
        credentials(&p, None),
        Ok(Credentials::Password { username: "alice".to_string(), password: String::new() })
    );
}

#[test]
fn key_login_expands_the_home_directory() {
    let mut p = params("key");
    p.private_key_path = Some("~/.ssh/id_ed25519".to_string());
    p.private_key_passphrase = Some("pp".to_string());
    assert_eq!(
        credentials(&p, Some("/home/alice")),
        Ok(Credentials::KeyFile {
            username: "alice".to_string(),
            private_key: "/home/alice/.ssh/id_ed25519".to_string(),
            passphrase: Some("pp".to_string()),
        })
    );
}

#[test]
fn key_login_falls_back_to_the_password_as_passphrase() {
    let mut p = params("key");
    p.private_key_path = Some("/keys/id_rsa".to_string());
    assert_eq!(
        credentials(&p, Some("/home/alice")),
        Ok(Credentials::KeyFile {
            username: "alice".to_string(),
            private_key: "/keys/id_rsa".to_string(),
            passphrase: Some("secret".to_string()),
        })
    );
    p.password = None;
    assert_eq!(
        credentials(&p, None),
        Ok(Credentials::KeyFile {
            username: "alice".to_string(),
            private_key: "/keys/id_rsa".to_string(),
            passphrase: None,
        })
    );
}

#[test]
fn key_login_without_a_path_is_an_auth_failure() {
    let p = params("key");
    assert_eq!(
        plan_connect(&p, None),
        Err(SshError::AuthFailed("No private key file given".to_string()))
    );
}

#[test]
fn unknown_method_is_an_auth_failure() {
    let p = params("token");
    assert_eq!(
        plan_connect(&p, None),
        Err(SshError::AuthFailed("Unknown authentication method: token".to_string()))
    );
}

#[test]
fn expand_home_rules() {
    assert_eq!(expand_home("~", Some("/home/a")), "/home/a");
    assert_eq!(expand_home("~/k", Some("/home/a")), "/home/a/k");
    assert_eq!(expand_home("~k", Some("/home/a")), "~k");
    assert_eq!(expand_home("/etc/k", Some("/home/a")), "/etc/k");
    assert_eq!(expand_home("~/k", None), "~/k");
    assert_eq!(expand_home("", Some("/home/a")), "");
}

#[test]
fn jump_host_defaults() {
    let mut p = params("password");
    assert_eq!(jump_host(&p), None);
    p.jump_host = Some("bastion".to_string());
    assert_eq!(
        jump_host(&p),
        Some(JumpHost {
            host: "bastion".to_string(),
            port: 22,
            username: "alice".to_string(),
            password: "secret".to_string(),
        })
    );
    p.jump_port = Some(2200);
    p.jump_username = Some("gate".to_string());
    p.jump_password = Some("gp".to_string());
    assert_eq!(
        jump_host(&p),
        Some(JumpHost {
            host: "bastion".to_string(),
            port: 2200,
            username: "gate".to_string(),
            password: "gp".to_string(),
        })
    );
}

#[test]
fn direct_connect_steps() {
    let plan = plan_connect(&params("password"), None).unwrap();
    assert_eq!(
        plan.steps(),
        vec![
            ConnectStep::TcpConnect,
            ConnectStep::Handshake,
            ConnectStep::Authenticate,
            ConnectStep::Confirm,
            ConnectStep::OpenChannel,
            ConnectStep::RequestPty,
            ConnectStep::StartShell,
            ConnectStep::SetNonBlocking,
            ConnectStep::AssignId,
            ConnectStep::SpawnReader,
            ConnectStep::Register,
        ]
    );
}

#[test]
fn connect_run_performs_every_step() {
    let plan = plan_connect(&params("password"), None).unwrap();
    let mut run = plan.run();
    let mut done = Vec::new();
    while let Some(step) = run.current() {
        done.push(step);
        run.record(None);
    }
    assert_eq!(done, plan.steps());
    assert_eq!(run.outcome(), Ok(()));
    run.record(Some("late"));
    assert_eq!(run.current(), None);
    assert_eq!(run.outcome(), Ok(()));
}

#[test]
fn connect_run_ends_at_the_first_failure() {
    let plan = plan_connect(&params("password"), None).unwrap();
    let mut run = plan.run();
    let mut done = Vec::new();
    while let Some(step) = run.current() {
        done.push(step);
        if step == ConnectStep::Authenticate {
            run.record(Some("denied"));
        } else {
            run.record(None);
        }
    }
    assert_eq!(
        done,
        vec![ConnectStep::TcpConnect, ConnectStep::Handshake, ConnectStep::Authenticate]
    );
    assert_eq!(run.outcome(), Err(SshError::AuthFailed("denied".to_string())));
}

#[test]
fn connect_run_stops_a_started_reader() {
    let plan = plan_connect(&params("password"), None).unwrap();
    let mut run = plan.run();
    let mut done = Vec::new();
    while let Some(step) = run.current() {
        done.push(step);
        match step {
            ConnectStep::Register => run.record(Some("full")),
            ConnectStep::StopReader => run.record(Some("ignored")),
            _ => run.record(None),
        }
    }
    assert_eq!(done.len(), 12);
    assert_eq!(done[10..], [ConnectStep::Register, ConnectStep::StopReader]);
    assert_eq!(
        run.outcome(),
        Err(SshError::ConnectionFailed("Registration failed: full".to_string()))
    );
}

#[test]
fn connect_run_does_not_stop_a_reader_that_never_ran() {
    let plan = plan_connect(&params("password"), None).unwrap();
    let mut run = plan.run();
    let mut done = Vec::new();
    while let Some(step) = run.current() {
        done.push(step);
        if step == ConnectStep::SpawnReader {
            run.record(Some("no threads"));
        } else {
            run.record(None);
        }
    }
    assert_eq!(done.last(), Some(&ConnectStep::SpawnReader));
    assert!(!done.contains(&ConnectStep::StopReader));
    assert_eq!(
        run.outcome(),
        Err(SshError::ConnectionFailed("Reader start failed: no threads".to_string()))
    );
}

#[test]
fn jump_connect_steps() {
    let mut p = params("password");
    p.jump_host = Some("bastion".to_string());
    let steps = plan_connect(&p, None).unwrap().steps();
    assert_eq!(
        steps[..6],
        [
            ConnectStep::JumpTcpConnect,
            ConnectStep::JumpHandshake,
            ConnectStep::JumpAuthenticate,
            ConnectStep::JumpConfirm,
            ConnectStep::OpenTunnel,
            ConnectStep::Handshake,
        ]
    );
    assert_eq!(steps.len(), 15);
    assert!(!steps.contains(&ConnectStep::TcpConnect));
    assert_eq!(
        steps[12..],
        [ConnectStep::AssignId, ConnectStep::SpawnReader, ConnectStep::Register]
    );
}

#[test]
fn step_failures_by_kind() {
    let connection = |d: &str| SshError::ConnectionFailed(d.to_string());
    let auth = |d: &str| SshError::AuthFailed(d.to_string());
    let channel = |d: &str| SshError::ChannelError(d.to_string());
    assert_eq!(
        step_failure(ConnectStep::TcpConnect, "refused"),
        connection("TCP connect failed: refused")
    );
    assert_eq!(
        step_failure(ConnectStep::Handshake, "eof"),
        connection("SSH handshake failed: eof")
    );
    assert_eq!(step_failure(ConnectStep::Authenticate, "denied"), auth("denied"));
    assert_eq!(step_failure(ConnectStep::Confirm, ""), auth("Session is not authenticated"));
    assert_eq!(
        step_failure(ConnectStep::OpenChannel, "x"),
        connection("Channel open failed: x")
    );
    assert_eq!(step_failure(ConnectStep::RequestPty, "x"), channel("PTY request failed: x"));
    assert_eq!(step_failure(ConnectStep::StartShell, "x"), channel("Shell start failed: x"));
    assert_eq!(
        step_failure(ConnectStep::JumpTcpConnect, "x"),
        connection("Jump host TCP connect failed: x")
    );
    assert_eq!(
        step_failure(ConnectStep::JumpHandshake, "x"),
        connection("Jump host SSH handshake failed: x")
    );
    assert_eq!(
        step_failure(ConnectStep::JumpAuthenticate, "x"),
        auth("Jump host rejected the login: x")
    );
    assert_eq!(
        step_failure(ConnectStep::JumpConfirm, ""),
        auth("Jump host session is not authenticated")
    );
    assert_eq!(
        step_failure(ConnectStep::OpenTunnel, "x"),
        connection("Tunnel through jump host failed: x")
    );
    assert_eq!(
        step_failure(ConnectStep::SetNonBlocking, "x"),
        connection("Switching to non-blocking mode failed: x")
    );
    assert_eq!(
        step_failure(ConnectStep::SpawnReader, "x"),
        connection("Reader start failed: x")
    );
    assert_eq!(step_failure(ConnectStep::Register, "x"), connection("Registration failed: x"));
    assert_eq!(
        step_failure(ConnectStep::AssignId, "x"),
        connection("Channel id assignment failed: x")
    );
    assert_eq!(step_failure(ConnectStep::StopReader, "x"), connection("Reader stop failed: x"));
}
