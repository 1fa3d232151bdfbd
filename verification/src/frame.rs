//! The fixed part of a management frame: its kind and its hardware address.

use vstd::prelude::*;
use vstd::string::*;
use crate::error::DecodeError;

verus! {

/// The first byte of a management frame of subtype beacon.
pub const BEACON_FRAME_CONTROL: u8 = 0x80;

/// Offset of the hardware address in a frame.
pub const ADDRESS_OFFSET: usize = 16;

/// The least length of a frame: it reaches to the end of the hardware address.
pub const MIN_FRAME_LEN: usize = 22;

/// Offset of the first information element in a frame.
pub const ELEMENTS_OFFSET: usize = 36;

/// What kind of frame a buffer holds.
#[derive(Clone, Copy, Debug, PartialEq, Eq, Structural)]
pub enum FrameKind {
    /// A management frame of subtype beacon.
    Beacon,
    /// Any other frame: it is left out, which is no failure.
    NotABeacon,
}

/// The kind of a frame, or the failure where the frame ends before the end of
/// the hardware address.
pub open spec fn frame_kind(frame: Seq<u8>) -> Result<FrameKind, DecodeError> {
    if frame.len() < MIN_FRAME_LEN {
        Err(DecodeError::MalformedCapture)
    } else if frame[0] == BEACON_FRAME_CONTROL {
        Ok(FrameKind::Beacon)
    } else {
        Ok(FrameKind::NotABeacon)
    }
}

/// Checks the length of a frame and tells a beacon from any other frame.
pub fn classify_frame(frame: &[u8]) -> (kind: Result<FrameKind, DecodeError>)
    ensures
        kind == frame_kind(frame@),
{
    if frame.len() < MIN_FRAME_LEN {
        Err(DecodeError::MalformedCapture)
    } else if frame[0] == BEACON_FRAME_CONTROL {
        Ok(FrameKind::Beacon)
    } else {
        Ok(FrameKind::NotABeacon)
    }
}

/// The hardware address of a radio: six bytes, any value of which is valid.
#[derive(Clone, Copy, Debug, PartialEq, Eq)]
pub struct HardwareAddress {
    pub octets: [u8; 6],
}

/// The upper-case hexadecimal digit of a number below 16.
pub open spec fn hex_digit(nibble: int) -> char
    recommends
        0 <= nibble < 16,
{
    if nibble < 10 {
        ('0' as int + nibble) as char
    } else {
        ('A' as int + nibble - 10) as char
    }
}

/// The canonical text of six octets: each as two upper-case hexadecimal digits,
/// the octets joined by colons, 17 characters in all.
pub open spec fn canonical_text(octets: Seq<u8>) -> Seq<char>
    recommends
        octets.len() == 6,
{
    Seq::new(
        17,
        |i: int|
            if i % 3 == 2 {
                ':'
            } else if i % 3 == 0 {
                hex_digit(octets[i / 3] as int / 16)
            } else {
                hex_digit(octets[i / 3] as int % 16)
            },
    )
}

/// The hardware address of a frame: its bytes 16 to 21.
pub open spec fn frame_address(frame: Seq<u8>) -> Seq<u8>
    recommends
        frame.len() >= MIN_FRAME_LEN,
{
    frame.subrange(ADDRESS_OFFSET as int, MIN_FRAME_LEN as int)
}

/// Reads the hardware address of a frame.
pub fn hardware_address(frame: &[u8]) -> (address: HardwareAddress)
    requires
        frame@.len() >= MIN_FRAME_LEN,
    ensures
        address.octets@ == frame_address(frame@),
{
    let address = HardwareAddress {
        octets: [frame[16], frame[17], frame[18], frame[19], frame[20], frame[21]],
    };
    assert(address.octets@ =~= frame_address(frame@));
    address
}

fn hex_digit_text(nibble: u8) -> (text: &'static str)
    requires
        nibble < 16,
    ensures
        text@ == seq![hex_digit(nibble as int)],
{
    proof {
        reveal_strlit("0");
        reveal_strlit("1");
        reveal_strlit("2");
        reveal_strlit("3");
        reveal_strlit("4");
        reveal_strlit("5");
        reveal_strlit("6");
        reveal_strlit("7");
        reveal_strlit("8");
        reveal_strlit("9");
        reveal_strlit("A");
        reveal_strlit("B");
        reveal_strlit("C");
        reveal_strlit("D");
        reveal_strlit("E");
        reveal_strlit("F");
    }
    match nibble {
        0 => "0",
        1 => "1",
        2 => "2",
        3 => "3",
        4 => "4",
        5 => "5",
        6 => "6",
        7 => "7",
        8 => "8",
        9 => "9",
        10 => "A",
        11 => "B",
        12 => "C",
        13 => "D",
        14 => "E",
        _ => "F",
    }
}

impl HardwareAddress {
    /// The address as text: colon-separated upper-case hexadecimal octets.
    pub fn canonical(&self) -> (text: String)
        ensures
            text@ == canonical_text(self.octets@),
    {
        let mut text = String::new();
        let mut i: usize = 0;
        while i < 6
            invariant
                i <= 6,
                text@.len() == (if i == 0 { 0 } else { 3 * i as int - 1 }),
                text@ == canonical_text(self.octets@).take(text@.len() as int),
            decreases 6 - i,
        {
            proof {
                reveal_strlit(":");
            }
            if i > 0 {
                text.append(":");
            }
            let octet = self.octets[i];
            text.append(hex_digit_text(octet / 16));
            text.append(hex_digit_text(octet % 16));
            i += 1;
            assert(text@ =~= canonical_text(self.octets@).take(text@.len() as int));
        }
        assert(text@ =~= canonical_text(self.octets@));
        text
    }
}

} // verus!
