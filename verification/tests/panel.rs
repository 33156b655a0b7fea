use panel_firmware::panel::{
    check_reply, classify, PanelError, Reply, ID, READ_BUFFER_SIZE, READ_TIMEOUT,
};

fn buffer(answer: &[u8]) -> [u8; READ_BUFFER_SIZE] {
    let mut buffer = [0u8; READ_BUFFER_SIZE];
    buffer[..answer.len()].copy_from_slice(answer);
    buffer
}

#[test]
fn panel_constants() {
    assert_eq!(ID, 1);
    assert_eq!(READ_TIMEOUT, 64);
    assert_eq!(READ_BUFFER_SIZE, 32);
}

#[test]
fn ack_is_recognized() {
    assert_eq!(classify(&buffer(b"ACK")), Reply::Ack);
    assert_eq!(classify(b"ACK"), Reply::Ack);
    assert_eq!(classify(b"ACKNOWLEDGED"), Reply::Ack);
    assert_eq!(check_reply(&buffer(b"ACK")), Ok(()));
}

#[test]
fn nack_is_recognized() {
    assert_eq!(classify(&buffer(b"NACK")), Reply::Nack);
    assert_eq!(classify(b"NACK"), Reply::Nack);
    assert_eq!(check_reply(&buffer(b"NACK")), Err(PanelError::Nack));
    assert_eq!(check_reply(b"NACK\r\n"), Err(PanelError::Nack));
}

#[test]
fn anything_else_is_taken_as_success() {
    assert_eq!(classify(&buffer(b"")), Reply::Other);
    assert_eq!(classify(b""), Reply::Other);
    assert_eq!(classify(b"AC"), Reply::Other);
    assert_eq!(classify(b"NAC"), Reply::Other);
    assert_eq!(classify(b"ack"), Reply::Other);
    assert_eq!(classify(b" ACK"), Reply::Other);
    assert_eq!(classify(&[0xff, 0x41, 0x43, 0x4b]), Reply::Other);
    assert_eq!(check_reply(&buffer(b"")), Ok(()));
    assert_eq!(check_reply(b"garbage"), Ok(()));
}

#[test]
fn classification_agrees_with_the_text_of_the_answer() {
    for answer in [
        &b"ACK"[..],
        b"NACK",
        b"NAK",
        b"ACKNACK",
        b"NACKACK",
        b"\xffACK",
        b"A",
        b"",
    ] {
        let bytes = buffer(answer);
        let text = String::from_utf8_lossy(&bytes);
        let expected = if text.starts_with("ACK") {
            Reply::Ack
        } else if text.starts_with("NACK") {
            Reply::Nack
        } else {
            Reply::Other
        };
        assert_eq!(classify(&bytes), expected);
    }
}
