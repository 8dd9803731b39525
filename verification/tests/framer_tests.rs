use serial_agent::framer::{encode_response, FrameBuffer};
use serial_agent::process::run_payload;

#[test]
fn whole_frame_in_one_chunk() {
    let mut f = FrameBuffer::new();
    let frames = f.push_chunk(b"poll\0");
    assert_eq!(frames, vec![b"poll".to_vec()]);
}

#[test]
fn frame_split_across_chunks_is_reassembled() {
    let mut f = FrameBuffer::new();
    assert!(f.push_chunk(b"po").is_empty());
    let frames = f.push_chunk(b"ll\0");
    assert_eq!(frames, vec![b"poll".to_vec()]);
}

#[test]
fn chunking_does_not_change_the_frames() {
    let bytes = b"signal 1 SIGTERM\0poll\0";
    let mut whole = FrameBuffer::new();
    let expected = whole.push_chunk(bytes);
    let mut pieces = FrameBuffer::new();
    let mut got: Vec<Vec<u8>> = Vec::new();
    for b in bytes.iter() {
        got.extend(pieces.push_chunk(&[*b]));
    }
    assert_eq!(got, expected);
    assert_eq!(got.len(), 2);
}

#[test]
fn bytes_after_the_terminator_stay_buffered() {
    let mut f = FrameBuffer::new();
    let frames = f.push_chunk(b"a\0b\0c");
    assert_eq!(frames, vec![b"a".to_vec(), b"b".to_vec()]);
    let more = f.push_chunk(b"d\0");
    assert_eq!(more, vec![b"cd".to_vec()]);
}

#[test]
fn empty_frames_are_possible() {
    let mut f = FrameBuffer::new();
    let frames = f.push_chunk(b"\0\0");
    assert_eq!(frames, vec![Vec::new(), Vec::new()]);
}

#[test]
fn ok_response_is_payload_then_marker_then_terminator() {
    let out = encode_response(&Ok("5\n".to_string()));
    assert_eq!(out, b"5\nOK\0".to_vec());
}

#[test]
fn empty_ok_response() {
    let out = encode_response(&Ok(String::new()));
    assert_eq!(out, b"OK\0".to_vec());
}

#[test]
fn run_response_is_pid_line_then_marker() {
    let out = encode_response(&Ok(run_payload(42)));
    assert_eq!(out, b"42\nOK\0".to_vec());
}

#[test]
fn err_response_is_base64_of_the_message() {
    // base64("msg") = "bXNn"
    let out = encode_response(&Err("msg".to_string()));
    assert_eq!(out, b"bXNn\nERR\0".to_vec());
}
