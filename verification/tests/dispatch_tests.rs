use serial_agent::dispatch::{parse_command, process_cmds, Command, DispatchOutcome};
use serial_agent::process::{process, split_args, RunError};
use serial_agent::records::{PollData, PollType};

#[test]
fn parses_run_with_exact_arity() {
    match parse_command("run AAA BBB CCC") {
        Command::Run { process_b64, args_b64, env_b64 } => {
            assert_eq!(process_b64, "AAA");
            assert_eq!(args_b64, "BBB");
            assert_eq!(env_b64, "CCC");
        }
        _ => panic!("expected a run command"),
    }
}

#[test]
fn parses_signal_and_poll() {
    match parse_command("signal 123 SIGKILL") {
        Command::Signal { pid, signal } => {
            assert_eq!(pid, "123");
            assert_eq!(signal, "SIGKILL");
        }
        _ => panic!("expected a signal command"),
    }
    assert!(matches!(parse_command("poll"), Command::Poll));
}

#[test]
fn wrong_arity_is_unknown() {
    assert!(matches!(parse_command("run A B"), Command::Unknown));
    assert!(matches!(parse_command("run A B C D"), Command::Unknown));
    assert!(matches!(parse_command("signal 1"), Command::Unknown));
    assert!(matches!(parse_command("poll now"), Command::Unknown));
    assert!(matches!(parse_command(""), Command::Unknown));
    assert!(matches!(parse_command("frobnicate"), Command::Unknown));
}

#[test]
fn consecutive_spaces_make_empty_tokens() {
    // "run  A B" splits as ["run", "", "A", "B"]: still arity four, with an
    // empty first blob.
    match parse_command("run  A B") {
        Command::Run { process_b64, .. } => assert_eq!(process_b64, ""),
        _ => panic!("expected a run command"),
    }
}

#[test]
fn unknown_cmd_is_rejected_with_the_command_text() {
    let mut store: Vec<PollData> = Vec::new();
    match process_cmds(b"frobnicate 1 2", &mut store) {
        DispatchOutcome::Reject(m) => assert_eq!(m, "Unknown cmd: frobnicate 1 2"),
        _ => panic!("expected a rejection"),
    }
}

#[test]
fn poll_cmd_drains_the_store() {
    let mut store = vec![PollData { typ: PollType::Stdout, pid: 5, data: "eQ==".to_string() }];
    match process_cmds(b"poll", &mut store) {
        DispatchOutcome::Reply(s) => assert_eq!(s, "stdout 5 eQ==\n"),
        _ => panic!("expected a reply"),
    }
    assert!(store.is_empty());
}

#[test]
fn signal_cmd_yields_delivery() {
    let mut store: Vec<PollData> = Vec::new();
    match process_cmds(b"signal 123 SIGKILL", &mut store) {
        DispatchOutcome::Deliver { pid, signal } => {
            assert_eq!(pid, 123);
            assert_eq!(signal, "SIGKILL");
        }
        _ => panic!("expected a delivery"),
    }
}

#[test]
fn malformed_pid_is_rejected() {
    let mut store: Vec<PollData> = Vec::new();
    match process_cmds(b"signal abc SIGKILL", &mut store) {
        DispatchOutcome::Reject(m) => assert_eq!(m, "Malformed pid"),
        _ => panic!("expected a rejection"),
    }
}

#[test]
fn run_cmd_with_valid_blobs_yields_spawn() {
    let mut store: Vec<PollData> = Vec::new();
    // base64("/bin/echo") = "L2Jpbi9lY2hv", base64("hi") = "aGk=", empty env.
    match process_cmds(b"run L2Jpbi9lY2hv aGk= ", &mut store) {
        DispatchOutcome::Spawn(req) => {
            assert_eq!(req.process, "/bin/echo");
            assert_eq!(req.args, vec!["hi".to_string()]);
            assert!(req.env_vars.is_empty());
        }
        _ => panic!("expected a spawn"),
    }
}

#[test]
fn process_decodes_all_three_blobs() {
    // base64("K=V;") = "Sz1WOw=="
    let req = process("L2Jpbi9lY2hv", "aGk=", "Sz1WOw==").expect("should decode");
    assert_eq!(req.process, "/bin/echo");
    assert_eq!(req.args, vec!["hi".to_string()]);
    assert_eq!(req.env_vars, vec![("K".to_string(), "V".to_string())]);
}

#[test]
fn invalid_base64_path_is_a_decode_error() {
    match process("!!!", "aGk=", "") {
        Err(e @ RunError::DecodePath(_)) => {
            assert!(e.message().starts_with("Error decoding exec path: "));
        }
        _ => panic!("expected a path decode error"),
    }
}

#[test]
fn invalid_utf8_blobs_are_rejected() {
    // base64([0xff]) = "/w==": valid base64, invalid UTF-8.
    match process("/w==", "aGk=", "") {
        Err(RunError::Utf8Path) => {}
        _ => panic!("expected a path UTF-8 error"),
    }
    match process("L2Jpbi9lY2hv", "/w==", "") {
        Err(RunError::Utf8Args) => {}
        _ => panic!("expected an args UTF-8 error"),
    }
    match process("L2Jpbi9lY2hv", "aGk=", "/w==") {
        Err(RunError::Utf8Env) => {}
        _ => panic!("expected an env UTF-8 error"),
    }
}

#[test]
fn malformed_env_blob_is_rejected_with_its_error() {
    // base64("K=V") = "Sz1W": unterminated.
    match process("L2Jpbi9lY2hv", "", "Sz1W") {
        Err(e @ RunError::Env(_)) => {
            assert_eq!(e.message(), "Env args are unterminated");
        }
        _ => panic!("expected an env parse error"),
    }
}

#[test]
fn args_blob_splits_on_nul() {
    assert_eq!(split_args(""), Vec::<String>::new());
    assert_eq!(split_args("one"), vec!["one".to_string()]);
    assert_eq!(split_args("a\u{0}b c"), vec!["a".to_string(), "b c".to_string()]);
    assert_eq!(split_args("x\u{0}"), vec!["x".to_string(), "".to_string()]);
}
