use rustpass::codec::{create_password_file, save_passwords};
use rustpass::daemon::{
    session_status_of_report, should_report, DaemonService, SessionStatus,
};
use rustpass::ipc::{
    encode_command, encode_response, get_socket_path, get_state_path, parse_command,
    parse_response, DaemonCommand, DaemonResponse, DaemonState,
};
use rustpass::models::{Metadata, PasswordEntry};

fn vault_with(password: &str) -> (Vec<u8>, [u8; 32], Vec<u8>) {
    let (_, key, salt, _) = create_password_file(password).unwrap();
    let entries = vec![PasswordEntry {
        name: String::from("one"),
        id: String::from("a"),
        password: String::from("pw-one-1"),
        metadata: Metadata { url: None, notes: None },
    }];
    let img = save_passwords(&entries, &key, &salt).unwrap();
    (img, key, salt)
}

#[test]
fn test_lock_twice_both_succeed() {
    let mut svc = DaemonService::new(None);
    let vault = b"irrelevant".to_vec();

    let r1 = svc.respond(&DaemonCommand::Lock, &vault);
    assert!(matches!(r1, DaemonResponse::Success));
    assert!(!svc.state.unlocked);
    assert!(svc.state.encryption_key.is_none());
    assert!(svc.state.salt.is_none());

    let r2 = svc.respond(&DaemonCommand::Lock, &vault);
    assert!(matches!(r2, DaemonResponse::Success));
    assert!(!svc.state.unlocked);
    assert!(svc.state.encryption_key.is_none());
    assert!(svc.state.salt.is_none());
}

#[test]
fn test_get_state_never_mutates() {
    let (img, key, salt) = vault_with("pass-phrase");
    let mut svc = DaemonService::new(Some(DaemonState {
        unlocked: true,
        encryption_key: Some(key.to_vec()),
        salt: Some(salt.clone()),
    }));
    let r = svc.respond(&DaemonCommand::GetState, &img);
    match r {
        DaemonResponse::StateInfo(s) => {
            assert!(s.unlocked);
            assert_eq!(s.encryption_key.unwrap(), key.to_vec());
            assert_eq!(s.salt.unwrap(), salt);
        }
        _ => panic!("expected StateInfo"),
    }
    assert!(svc.state.unlocked);
    assert!(svc.running);
}

#[test]
fn test_unlock_command() {
    let (img, key, salt) = vault_with("open-sesame");
    let mut svc = DaemonService::new(None);

    let bad = svc.respond(
        &DaemonCommand::Unlock { password: String::from("nope") },
        &img,
    );
    assert!(matches!(bad, DaemonResponse::Error(_)));
    assert!(!svc.state.unlocked);

    let good = svc.respond(
        &DaemonCommand::Unlock { password: String::from("open-sesame") },
        &img,
    );
    assert!(matches!(good, DaemonResponse::Success));
    assert!(svc.state.unlocked);
    assert_eq!(svc.state.encryption_key.as_ref().unwrap(), &key.to_vec());
    assert_eq!(svc.state.salt.as_ref().unwrap(), &salt);
}

#[test]
fn test_exit_flips_run_flag() {
    let mut svc = DaemonService::new(None);
    assert!(svc.running);
    let r = svc.respond(&DaemonCommand::Exit, b"");
    assert!(matches!(r, DaemonResponse::Success));
    assert!(!svc.running);
    svc.stop();
    assert!(!svc.running);
}

#[test]
fn test_session_auto_lock() {
    let (_, key, salt) = vault_with("session-pass");
    let mut svc = DaemonService::new(Some(DaemonState {
        unlocked: true,
        encryption_key: Some(key.to_vec()),
        salt: Some(salt),
    }));

    svc.handle_session_change(SessionStatus::Inactive);
    assert!(!svc.state.unlocked);
    assert!(svc.state.encryption_key.is_none());
    assert!(svc.state.salt.is_none());

    // Activity alone never restores secrets.
    svc.handle_session_change(SessionStatus::Active);
    assert!(!svc.state.unlocked);
    assert!(svc.state.encryption_key.is_none());
    assert!(svc.state.salt.is_none());
}

#[test]
fn test_invalid_request_answered_not_fatal() {
    let mut svc = DaemonService::new(None);
    let reply = svc.handle_request("not a command", b"");
    match parse_response(&reply) {
        Some(DaemonResponse::Error(_)) => {}
        other => panic!("expected an error reply, got {:?}", other.is_some()),
    }
    assert!(svc.running);
}

#[test]
fn test_command_wire_round_trip() {
    let cmds = vec![
        DaemonCommand::Unlock { password: String::from("p\"w\\d") },
        DaemonCommand::Lock,
        DaemonCommand::GetState,
        DaemonCommand::Exit,
    ];
    for cmd in cmds {
        let text = encode_command(&cmd);
        let back = parse_command(&text).expect("round trip parses");
        match (&cmd, &back) {
            (DaemonCommand::Unlock { password: a }, DaemonCommand::Unlock { password: b }) => {
                assert_eq!(a, b)
            }
            (DaemonCommand::Lock, DaemonCommand::Lock) => {}
            (DaemonCommand::GetState, DaemonCommand::GetState) => {}
            (DaemonCommand::Exit, DaemonCommand::Exit) => {}
            _ => panic!("variant changed on the wire"),
        }
    }
    assert_eq!(encode_command(&DaemonCommand::Lock), "\"Lock\"");
    assert_eq!(
        encode_command(&DaemonCommand::Unlock { password: String::from("hi") }),
        "{\"Unlock\":{\"password\":\"hi\"}}"
    );
    assert!(parse_command("\"Nonsense\"").is_none());
    assert!(parse_command("\"Lock\" trailing").is_none());
}

#[test]
fn test_response_wire_round_trip() {
    let st = DaemonState {
        unlocked: true,
        encryption_key: Some(vec![0, 1, 9, 10, 99, 100, 255]),
        salt: Some(vec![]),
    };
    let text = encode_response(&DaemonResponse::StateInfo(st));
    assert_eq!(
        text,
        "{\"StateInfo\":{\"unlocked\":true,\"encryption_key\":[0,1,9,10,99,100,255],\"salt\":[]}}"
    );
    match parse_response(&text) {
        Some(DaemonResponse::StateInfo(s)) => {
            assert!(s.unlocked);
            assert_eq!(s.encryption_key.unwrap(), vec![0, 1, 9, 10, 99, 100, 255]);
            assert_eq!(s.salt.unwrap(), Vec::<u8>::new());
        }
        _ => panic!("expected StateInfo"),
    }

    let ok = encode_response(&DaemonResponse::Success);
    assert_eq!(ok, "\"Success\"");
    assert!(matches!(
        parse_response(&ok),
        Some(DaemonResponse::Success)
    ));

    let err = encode_response(&DaemonResponse::Error(String::from("bad")));
    assert_eq!(err, "{\"Error\":\"bad\"}");
    match parse_response(&err) {
        Some(DaemonResponse::Error(m)) => assert_eq!(m, "bad"),
        _ => panic!("expected Error"),
    }
}

#[test]
fn test_session_status_of_report() {
    assert_eq!(
        session_status_of_report("State=active\n"),
        SessionStatus::Active
    );
    assert_eq!(
        session_status_of_report("State=lingering\n"),
        SessionStatus::Inactive
    );
    assert_eq!(session_status_of_report(""), SessionStatus::Inactive);
    assert_eq!(session_status_of_report("act"), SessionStatus::Inactive);
}

#[test]
fn test_should_report_only_transitions() {
    assert!(!should_report(&SessionStatus::Active, &SessionStatus::Active));
    assert!(!should_report(&SessionStatus::Inactive, &SessionStatus::Inactive));
    assert!(should_report(&SessionStatus::Active, &SessionStatus::Inactive));
    assert!(should_report(&SessionStatus::Inactive, &SessionStatus::Active));
}

#[test]
fn test_ipc_paths() {
    assert_eq!(get_socket_path("/run/user/1000/rustpass"), "/run/user/1000/rustpass/daemon.sock");
    assert_eq!(get_state_path("/run/user/1000/rustpass"), "/run/user/1000/rustpass/state.json");
}
