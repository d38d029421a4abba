use file_transfer::messages::{serialize_message, MessageReader};

#[test]
fn framing_appends_the_delimiter() {
    assert_eq!(serialize_message(b"\"Hello\""), b"\"Hello\"\n".to_vec());
    assert_eq!(serialize_message(b""), b"\n".to_vec());
}

#[test]
fn frames_come_back_in_order() {
    let mut wire = serialize_message(b"{\"a\":1}");
    wire.extend(serialize_message(b"\"Hello\""));
    let mut reader = MessageReader::new();
    reader.push(&wire[..3]);
    assert_eq!(reader.next_frame(), None);
    reader.push(&wire[3..]);
    assert_eq!(reader.next_frame(), Some(b"{\"a\":1}\n".to_vec()));
    assert_eq!(reader.next_frame(), Some(b"\"Hello\"\n".to_vec()));
    assert_eq!(reader.next_frame(), None);
    assert_eq!(reader.finish(), Vec::<u8>::new());
}

#[test]
fn unterminated_tail_is_handed_out_at_the_end() {
    let mut reader = MessageReader::new();
    reader.push(b"abc\ndef");
    assert_eq!(reader.next_frame(), Some(b"abc\n".to_vec()));
    assert_eq!(reader.next_frame(), None);
    assert_eq!(reader.finish(), b"def".to_vec());
    assert_eq!(reader.finish(), Vec::<u8>::new());
}
