use jsonl_messenger::stream::{check_payload, frame, TERMINATOR};
use jsonl_messenger::{EmitError, LineStream};

#[test]
fn terminator_is_a_line_feed() {
    assert_eq!(TERMINATOR, b'\n');
}

#[test]
fn payload_check_wants_one_non_empty_line() {
    assert!(check_payload(b"{}"));
    assert!(check_payload(b"x"));
    assert!(check_payload(b"\r"));
    assert!(!check_payload(b""));
    assert!(!check_payload(b"\n"));
    assert!(!check_payload(b"{}\n"));
    assert!(!check_payload(b"\n{}"));
    assert!(!check_payload(b"{\n}"));
}

#[test]
fn frame_adds_exactly_one_terminator() {
    assert_eq!(frame(b"{}"), Ok(b"{}\n".to_vec()));
    assert_eq!(frame(b"{\"a\":[1,2]}"), Ok(b"{\"a\":[1,2]}\n".to_vec()));
    assert_eq!(frame(b""), Err(EmitError::Serialize));
    assert_eq!(frame(b"a\nb"), Err(EmitError::Serialize));
}

#[test]
fn new_stream_is_open_and_empty() {
    let s = LineStream::new(10);
    assert_eq!(s.limit(), 10);
    assert!(!s.is_closed());
    assert!(!s.is_poisoned());
    assert!(s.as_bytes().is_empty());
}

#[test]
fn append_writes_whole_lines_in_order() {
    let mut s = LineStream::new(usize::MAX);
    assert_eq!(s.append(b"first"), Ok(()));
    assert_eq!(s.append(b"second"), Ok(()));
    assert_eq!(s.as_bytes(), b"first\nsecond\n");
}

#[test]
fn append_checks_guard_then_payload_then_stream() {
    let mut s = LineStream::new(4);
    assert_eq!(s.append(b""), Err(EmitError::Serialize));
    assert_eq!(s.append(b"abcd"), Err(EmitError::Write));
    assert_eq!(s.append(b"abc"), Ok(()));
    assert_eq!(s.append(b"x"), Err(EmitError::Write));
    assert_eq!(s.as_bytes(), b"abc\n");
    s.close();
    assert!(s.is_closed());
    assert_eq!(s.append(b"a\nb"), Err(EmitError::Serialize));
    s.poison();
    assert!(s.is_poisoned());
    assert_eq!(s.append(b"a\nb"), Err(EmitError::Internal));
    assert_eq!(s.append(b"a"), Err(EmitError::Internal));
    assert_eq!(s.as_bytes(), b"abc\n");
}

#[test]
fn stream_without_room_for_a_terminator_takes_nothing() {
    let mut s = LineStream::new(0);
    assert_eq!(s.append(b"a"), Err(EmitError::Write));
    let mut t = LineStream::new(1);
    assert_eq!(t.append(b"a"), Err(EmitError::Write));
    let mut u = LineStream::new(2);
    assert_eq!(u.append(b"a"), Ok(()));
    assert_eq!(u.as_bytes(), b"a\n");
}

#[test]
fn drain_frees_the_room_it_takes_out() {
    let mut s = LineStream::new(4);
    assert_eq!(s.append(b"abc"), Ok(()));
    assert_eq!(s.append(b"abc"), Err(EmitError::Write));
    assert_eq!(s.drain(), b"abc\n".to_vec());
    assert!(s.as_bytes().is_empty());
    assert_eq!(s.limit(), 4);
    assert_eq!(s.append(b"xyz"), Ok(()));
    assert_eq!(s.drain(), b"xyz\n".to_vec());
    assert!(s.drain().is_empty());
}

#[test]
fn closed_stream_keeps_what_it_holds() {
    let mut s = LineStream::new(100);
    assert_eq!(s.append(b"{}"), Ok(()));
    s.close();
    assert_eq!(s.append(b"{}"), Err(EmitError::Write));
    assert_eq!(s.drain(), b"{}\n".to_vec());
    assert!(s.is_closed());
    assert_eq!(s.append(b"{}"), Err(EmitError::Write));
}
