use wifi_monitor::error::DecodeError;
use wifi_monitor::frame::{classify_frame, hardware_address, FrameKind, HardwareAddress};

#[test]
fn frames_below_22_bytes_are_malformed() {
    for len in 0usize..22 {
        let mut frame = vec![0u8; len];
        if len > 0 {
            frame[0] = 0x80;
        }
        assert_eq!(classify_frame(&frame), Err(DecodeError::MalformedCapture));
    }
}

#[test]
fn beacon_is_told_by_its_first_byte() {
    let mut frame = vec![0u8; 22];
    frame[0] = 0x80;
    assert_eq!(classify_frame(&frame), Ok(FrameKind::Beacon));
}

#[test]
fn other_first_bytes_are_not_beacons() {
    for first in [0x00u8, 0x40, 0x50, 0x08, 0x81, 0xFF] {
        let mut frame = vec![0u8; 40];
        frame[0] = first;
        assert_eq!(classify_frame(&frame), Ok(FrameKind::NotABeacon));
    }
}

#[test]
fn beacon_shorter_than_36_bytes_is_still_a_beacon() {
    let mut frame = vec![0u8; 30];
    frame[0] = 0x80;
    assert_eq!(classify_frame(&frame), Ok(FrameKind::Beacon));
}

#[test]
fn address_is_read_from_bytes_16_to_21() {
    let mut frame: Vec<u8> = (0u8..40).collect();
    frame[0] = 0x80;
    let address = hardware_address(&frame);
    assert_eq!(address.octets, [16, 17, 18, 19, 20, 21]);
}

#[test]
fn address_of_a_22_byte_frame() {
    let mut frame = vec![0u8; 22];
    frame[16..22].copy_from_slice(&[0xAA, 0xBB, 0xCC, 0x00, 0x11, 0x22]);
    assert_eq!(
        hardware_address(&frame),
        HardwareAddress { octets: [0xAA, 0xBB, 0xCC, 0x00, 0x11, 0x22] }
    );
}

#[test]
fn canonical_text_of_an_address() {
    let address = HardwareAddress { octets: [0xAA, 0xBB, 0xCC, 0x00, 0x11, 0x22] };
    assert_eq!(address.canonical(), "AA:BB:CC:00:11:22");
}

#[test]
fn canonical_text_pads_and_uses_upper_case() {
    let address = HardwareAddress { octets: [0x00, 0x01, 0x0A, 0xF0, 0x9F, 0xFF] };
    assert_eq!(address.canonical(), "00:01:0A:F0:9F:FF");
}

#[test]
fn canonical_text_agrees_with_formatting_for_every_octet() {
    for octet in 0u8..=255 {
        let address = HardwareAddress { octets: [octet, 0, octet, 0xFF, octet, 0x5a] };
        let expected = format!("{:02X}:00:{:02X}:FF:{:02X}:5A", octet, octet, octet);
        assert_eq!(address.canonical(), expected);
    }
}

#[test]
fn canonical_text_has_17_characters() {
    let address = HardwareAddress { octets: [1, 2, 3, 4, 5, 6] };
    assert_eq!(address.canonical().len(), 17);
}
