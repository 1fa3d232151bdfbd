use wifi_monitor::capture::{byte_to_signed, split_capture, CaptureParts};
use wifi_monitor::error::DecodeError;

fn header(declared: u16, signal: u8, total: usize) -> Vec<u8> {
    let mut capture = vec![0u8; total];
    let bytes = declared.to_le_bytes();
    capture[2] = bytes[0];
    capture[3] = bytes[1];
    if total > 8 {
        capture[8] = signal;
    }
    capture
}

#[test]
fn captures_below_four_bytes_are_malformed() {
    for len in 0usize..4 {
        let capture = vec![0u8; len];
        assert_eq!(split_capture(&capture), Err(DecodeError::MalformedCapture));
    }
}

#[test]
fn captures_of_four_to_eight_bytes_are_malformed() {
    for len in 4usize..=8 {
        let capture = vec![0u8; len];
        assert_eq!(split_capture(&capture), Err(DecodeError::MalformedCapture));
    }
}

#[test]
fn nine_bytes_are_enough_for_the_header() {
    let capture = header(9, 0xCE, 9);
    let parts = split_capture(&capture).unwrap();
    assert_eq!(parts.metadata_length, 9);
    assert_eq!(parts.signal_dbm, -50);
    assert!(parts.frame.is_empty());
}

#[test]
fn declared_length_beyond_the_capture_is_malformed() {
    let capture = header(21, 0xCE, 20);
    assert_eq!(split_capture(&capture), Err(DecodeError::MalformedCapture));
}

#[test]
fn declared_length_of_the_whole_capture_leaves_an_empty_frame() {
    let capture = header(20, 0xCE, 20);
    let parts = split_capture(&capture).unwrap();
    assert_eq!(parts.metadata_length, 20);
    assert!(parts.frame.is_empty());
}

#[test]
fn declared_length_uses_both_bytes_low_first() {
    let mut capture = vec![0u8; 600];
    capture[2] = 0x2C;
    capture[3] = 0x01;
    capture[8] = 0x10;
    capture[300] = 0xAB;
    let parts = split_capture(&capture).unwrap();
    assert_eq!(parts.metadata_length, 300);
    assert_eq!(parts.frame.len(), 300);
    assert_eq!(parts.frame[0], 0xAB);
}

#[test]
fn high_length_byte_alone_can_exceed_the_capture() {
    let mut capture = vec![0u8; 255];
    capture[3] = 0x01;
    assert_eq!(split_capture(&capture), Err(DecodeError::MalformedCapture));
}

#[test]
fn frame_starts_at_the_declared_length() {
    let mut capture = header(12, 0xB0, 16);
    capture[12] = 1;
    capture[13] = 2;
    capture[14] = 3;
    capture[15] = 4;
    let expected: &[u8] = &[1, 2, 3, 4];
    assert_eq!(
        split_capture(&capture),
        Ok(CaptureParts { metadata_length: 12, signal_dbm: -80, frame: expected })
    );
}

#[test]
fn declared_length_below_the_signal_offset_is_accepted() {
    let mut capture = header(0, 0x05, 10);
    capture[9] = 0x77;
    let parts = split_capture(&capture).unwrap();
    assert_eq!(parts.metadata_length, 0);
    assert_eq!(parts.signal_dbm, 5);
    assert_eq!(parts.frame, &capture[..]);
}

#[test]
fn signal_byte_is_read_as_signed() {
    assert_eq!(byte_to_signed(0xCE), -50);
    assert_eq!(byte_to_signed(0x00), 0);
    assert_eq!(byte_to_signed(0x7F), 127);
    assert_eq!(byte_to_signed(0x80), -128);
    assert_eq!(byte_to_signed(0xFF), -1);
}

#[test]
fn signed_reading_agrees_with_the_cast_for_every_byte() {
    for byte in 0u8..=255 {
        assert_eq!(byte_to_signed(byte), byte as i8);
    }
}
