//! Splitting a captured buffer into its metadata header and the radio frame.

use vstd::prelude::*;
use crate::error::DecodeError;

verus! {

/// Offset of the little-endian 16-bit metadata length field.
pub const METADATA_LENGTH_OFFSET: usize = 2;

/// Offset of the signal strength byte.
pub const SIGNAL_OFFSET: usize = 8;

/// The metadata length that a capture declares: the little-endian 16-bit number
/// in its bytes 2 and 3.
pub open spec fn metadata_length(capture: Seq<u8>) -> int
    recommends
        capture.len() >= 4,
{
    capture[2] as int + 256 * (capture[3] as int)
}

/// A byte read as a signed 8-bit number in two's complement.
pub open spec fn signed_byte(byte: u8) -> int {
    if byte < 128 {
        byte as int
    } else {
        byte as int - 256
    }
}

/// A capture from which no frame can be cut: it ends before the signal byte,
/// or it declares more metadata than it holds.
pub open spec fn capture_is_malformed(capture: Seq<u8>) -> bool {
    capture.len() <= SIGNAL_OFFSET || metadata_length(capture) > capture.len()
}

/// What the metadata header of a capture yields.
#[derive(Clone, Copy, Debug, PartialEq, Eq)]
pub struct CaptureParts<'a> {
    /// The declared length of the metadata header.
    pub metadata_length: u16,
    /// The signal strength of the frame in dBm.
    pub signal_dbm: i8,
    /// The radio frame: the capture from the end of the metadata header on.
    pub frame: &'a [u8],
}

/// Reads a byte as a signed 8-bit number.
pub fn byte_to_signed(byte: u8) -> (value: i8)
    ensures
        value as int == signed_byte(byte),
{
    if byte < 128 {
        byte as i8
    } else {
        (byte as i16 - 256) as i8
    }
}

/// Separates the metadata header of a capture from the radio frame and reads
/// the signal strength. Fails on a capture of at most 8 bytes, where the signal
/// byte cannot be read, and on one whose declared metadata length exceeds its
/// length.
pub fn split_capture<'a>(capture: &'a [u8]) -> (parts: Result<CaptureParts<'a>, DecodeError>)
    ensures
        capture@.len() <= 8 ==> parts == Err::<CaptureParts<'a>, DecodeError>(
            DecodeError::MalformedCapture,
        ),
        capture@.len() >= 4 && metadata_length(capture@) > capture@.len() ==> parts == Err::<
            CaptureParts<'a>,
            DecodeError,
        >(DecodeError::MalformedCapture),
        parts is Err <==> capture_is_malformed(capture@),
        parts matches Ok(p) ==> {
            &&& p.metadata_length as int == metadata_length(capture@)
            &&& p.signal_dbm as int == signed_byte(capture@[SIGNAL_OFFSET as int])
            &&& p.frame@ == capture@.skip(metadata_length(capture@))
        },
{
    if capture.len() <= SIGNAL_OFFSET {
        return Err(DecodeError::MalformedCapture);
    }
    let low: u16 = capture[METADATA_LENGTH_OFFSET] as u16;
    let high: u16 = capture[METADATA_LENGTH_OFFSET + 1] as u16;
    let declared: u16 = low + 256 * high;
    if declared as usize > capture.len() {
        return Err(DecodeError::MalformedCapture);
    }
    let signal_dbm = byte_to_signed(capture[SIGNAL_OFFSET]);
    let frame = vstd::slice::slice_subrange(capture, declared as usize, capture.len());
    Ok(CaptureParts { metadata_length: declared, signal_dbm, frame })
}

} // verus!
