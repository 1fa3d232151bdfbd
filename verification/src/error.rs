//! Failures of the decoder.

use vstd::prelude::*;

verus! {

/// Why a captured buffer could not be decoded. Every failure concerns the one
/// buffer at hand: the caller skips it and goes on with the next.
#[derive(Clone, Copy, Debug, PartialEq, Eq, Structural)]
pub enum DecodeError {
    /// The buffer is too short to hold the metadata length field, the signal
    /// byte or the hardware address, or it declares more metadata than it holds.
    MalformedCapture,
}

} // verus!
