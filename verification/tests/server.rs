use escpos_emulator::networking::server::status_responses;

#[test]
fn no_status_request() {
    assert_eq!(status_responses(b"hello\n"), None);
    assert_eq!(status_responses(&[]), None);
    assert_eq!(status_responses(&[0x10, 0x04]), None);
}

#[test]
fn status_requests_are_answered_in_order() {
    assert_eq!(status_responses(&[0x10, 0x04, 0x01]), Some(vec![0x16]));
    assert_eq!(
        status_responses(&[b'x', 0x10, 0x04, 0x02, 0x10, 0x04, 0x01, 0x10, 0x04, 0x04]),
        Some(vec![0x12, 0x16, 0x12])
    );
    // A matched request is skipped whole.
    assert_eq!(status_responses(&[0x10, 0x04, 0x10, 0x04, 0x01]), Some(vec![0x12]));
}
