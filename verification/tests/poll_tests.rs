use serial_agent::poll::{push_possible_output, send_poll_data};
use serial_agent::process::{push_exit_record, exit_code, ProcExit};
use serial_agent::records::{PollData, PollType};

#[test]
fn drain_of_empty_store_is_empty_string() {
    let mut store: Vec<PollData> = Vec::new();
    assert_eq!(send_poll_data(&mut store), "");
}

#[test]
fn drain_renders_kind_pid_payload_lines() {
    let mut store = vec![
        PollData { typ: PollType::Stdout, pid: 42, data: "aGk=".to_string() },
        PollData { typ: PollType::Stderr, pid: 42, data: "b29wcw==".to_string() },
        PollData { typ: PollType::PidExit, pid: 42, data: "0".to_string() },
    ];
    let out = send_poll_data(&mut store);
    assert_eq!(out, "stdout 42 aGk=\nstderr 42 b29wcw==\npidexit 42 0\n");
}

#[test]
fn draining_twice_returns_records_then_nothing() {
    let mut store = vec![PollData { typ: PollType::Stdout, pid: 1, data: "eA==".to_string() }];
    let first = send_poll_data(&mut store);
    assert_eq!(first, "stdout 1 eA==\n");
    let second = send_poll_data(&mut store);
    assert_eq!(second, "");
}

#[test]
fn records_drain_in_insertion_order() {
    let mut store: Vec<PollData> = Vec::new();
    push_possible_output(Some("A".to_string()), None, 9, &mut store);
    push_possible_output(Some("B".to_string()), None, 9, &mut store);
    let out = send_poll_data(&mut store);
    // base64("A") = "QQ==", base64("B") = "Qg=="
    assert_eq!(out, "stdout 9 QQ==\nstdout 9 Qg==\n");
}

#[test]
fn output_is_base64_encoded() {
    let mut store: Vec<PollData> = Vec::new();
    push_possible_output(Some("hi".to_string()), None, 7, &mut store);
    assert_eq!(store.len(), 1);
    assert_eq!(store[0].data, "aGk=");
}

#[test]
fn stdout_comes_before_stderr_of_the_same_capture() {
    let mut store: Vec<PollData> = Vec::new();
    push_possible_output(Some("out".to_string()), Some("err".to_string()), 3, &mut store);
    assert_eq!(store.len(), 2);
    assert!(matches!(store[0].typ, PollType::Stdout));
    assert!(matches!(store[1].typ, PollType::Stderr));
}

#[test]
fn empty_captures_add_no_records() {
    let mut store: Vec<PollData> = Vec::new();
    push_possible_output(None, None, 3, &mut store);
    push_possible_output(Some(String::new()), Some(String::new()), 3, &mut store);
    assert!(store.is_empty());
}

#[test]
fn exit_encoding_boundaries() {
    assert_eq!(exit_code(&ProcExit::Exited(0)), 0);
    assert_eq!(exit_code(&ProcExit::Exited(255)), 255);
    assert_eq!(exit_code(&ProcExit::Undetermined), 256);
    assert_eq!(exit_code(&ProcExit::Signaled(9)), 265);
}

#[test]
fn exit_record_is_rendered_in_decimal() {
    let mut store: Vec<PollData> = Vec::new();
    push_exit_record(31, &ProcExit::Signaled(9), &mut store);
    let out = send_poll_data(&mut store);
    assert_eq!(out, "pidexit 31 265\n");
}

#[test]
fn labels_match_the_wire_tokens() {
    assert_eq!(PollType::PidExit.label(), "pidexit");
    assert_eq!(PollType::Stdout.label(), "stdout");
    assert_eq!(PollType::Stderr.label(), "stderr");
}
