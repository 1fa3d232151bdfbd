//! Decoding a captured buffer into the record of one beacon.

use vstd::prelude::*;
use vstd::string::*;
use crate::aggregate::{aggregate, aggregate_elements, reported_name};
use crate::capture::{capture_is_malformed, metadata_length, signed_byte, split_capture, SIGNAL_OFFSET};
use crate::element::frame_elements;
use crate::encryption::EncryptionLevel;
use crate::error::DecodeError;
use crate::frame::{
    classify_frame, frame_address, hardware_address, FrameKind, HardwareAddress,
    BEACON_FRAME_CONTROL, MIN_FRAME_LEN,
};
use crate::frequency::{frequency_for_known_channel, known_frequency};

verus! {

/// What one beacon frame tells of an access point, with the strength at which
/// the frame was received.
#[derive(Clone, Debug, PartialEq, Eq)]
pub struct BeaconRecord {
    /// The hardware address of the access point, by which it is known.
    pub hardware_address: HardwareAddress,
    /// The name of the network: `Unknown` where the frame holds no name
    /// element, `<Hidden>` where it holds only empty ones.
    pub name: String,
    /// The channel number, where a channel element gave one.
    pub channel: Option<u8>,
    /// The centre frequency of the channel in MHz, where the channel is known
    /// and lies in a known band.
    pub frequency_mhz: Option<i32>,
    /// The encryption that the elements point to.
    pub encryption: EncryptionLevel,
    /// The signal strength of the frame in dBm.
    pub signal_dbm: i8,
}

/// The record as values.
pub struct BeaconRecordView {
    pub hardware_address: Seq<u8>,
    pub name: Seq<char>,
    pub channel: Option<u8>,
    pub frequency_mhz: Option<int>,
    pub encryption: EncryptionLevel,
    pub signal_dbm: int,
}

impl View for BeaconRecord {
    type V = BeaconRecordView;

    open spec fn view(&self) -> BeaconRecordView {
        BeaconRecordView {
            hardware_address: self.hardware_address.octets@,
            name: self.name@,
            channel: self.channel,
            frequency_mhz: match self.frequency_mhz {
                Some(f) => Some(f as int),
                None => None,
            },
            encryption: self.encryption,
            signal_dbm: self.signal_dbm as int,
        }
    }
}

/// What decoding a well-formed capture gives.
#[derive(Clone, Debug, PartialEq, Eq)]
pub enum Decoded {
    /// The frame is a beacon: its record.
    Beacon(BeaconRecord),
    /// The frame is of another kind and is left out. This is no failure.
    NotABeacon,
}

/// The frame of a capture: what follows its metadata header.
pub open spec fn capture_frame(capture: Seq<u8>) -> Seq<u8>
    recommends
        !capture_is_malformed(capture),
{
    capture.skip(metadata_length(capture))
}

/// A capture that cannot be decoded: no frame can be cut from it, or its frame
/// ends before the end of the hardware address.
pub open spec fn is_undecodable(capture: Seq<u8>) -> bool {
    capture_is_malformed(capture) || capture_frame(capture).len() < MIN_FRAME_LEN
}

/// Whether a capture that can be decoded holds a beacon frame.
pub open spec fn holds_beacon(capture: Seq<u8>) -> bool
    recommends
        !is_undecodable(capture),
{
    capture_frame(capture)[0] == BEACON_FRAME_CONTROL
}

/// The record of the beacon frame that a capture holds.
pub open spec fn beacon_record(capture: Seq<u8>) -> BeaconRecordView
    recommends
        !is_undecodable(capture),
        holds_beacon(capture),
{
    let frame = capture_frame(capture);
    let attributes = aggregate_elements(frame_elements(frame));
    BeaconRecordView {
        hardware_address: frame_address(frame),
        name: reported_name(attributes.name),
        channel: attributes.channel,
        frequency_mhz: known_frequency(attributes.channel),
        encryption: attributes.encryption,
        signal_dbm: signed_byte(capture[SIGNAL_OFFSET as int]),
    }
}

/// Decodes one captured buffer: cuts the frame from it, checks that the frame
/// is a beacon, and reads the hardware address, the elements and the signal
/// strength into a record.
///
/// It fails on a capture of at most 8 bytes, on one that declares more metadata
/// than it holds, and on one whose frame has fewer than 22 bytes. A frame of
/// another kind gives `NotABeacon`.
pub fn decode_capture(capture: &[u8]) -> (outcome: Result<Decoded, DecodeError>)
    ensures
        capture@.len() <= 8 ==> outcome == Err::<Decoded, DecodeError>(
            DecodeError::MalformedCapture,
        ),
        capture@.len() >= 4 && metadata_length(capture@) > capture@.len() ==> outcome == Err::<
            Decoded,
            DecodeError,
        >(DecodeError::MalformedCapture),
        is_undecodable(capture@) <==> outcome == Err::<Decoded, DecodeError>(
            DecodeError::MalformedCapture,
        ),
        !is_undecodable(capture@) && !holds_beacon(capture@) ==> outcome == Ok::<
            Decoded,
            DecodeError,
        >(Decoded::NotABeacon),
        !is_undecodable(capture@) && holds_beacon(capture@) ==> (outcome matches Ok(
            Decoded::Beacon(record),
        ) && record@ == beacon_record(capture@)),
{
    let parts = match split_capture(capture) {
        Ok(parts) => parts,
        Err(e) => {
            return Err(e);
        },
    };
    let frame = parts.frame;
    match classify_frame(frame) {
        Err(e) => Err(e),
        Ok(FrameKind::NotABeacon) => Ok(Decoded::NotABeacon),
        Ok(FrameKind::Beacon) => {
            let attributes = aggregate(frame);
            let frequency_mhz = frequency_for_known_channel(attributes.channel);
            let record = BeaconRecord {
                hardware_address: hardware_address(frame),
                name: attributes.reported_name(),
                channel: attributes.channel,
                frequency_mhz,
                encryption: attributes.encryption,
                signal_dbm: parts.signal_dbm,
            };
            Ok(Decoded::Beacon(record))
        },
    }
}

/// A metadata header of at most eight bytes ends before the signal byte, which
/// then lies in the frame. With a header of just eight bytes it is the first
/// byte of the frame, the one that marks a beacon: every beacon of such a
/// capture has the signal strength -128.
pub proof fn lemma_signal_byte_in_frame(capture: Seq<u8>)
    requires
        !is_undecodable(capture),
        metadata_length(capture) <= SIGNAL_OFFSET,
    ensures
        capture[SIGNAL_OFFSET as int] == capture_frame(capture)[SIGNAL_OFFSET - metadata_length(
            capture,
        )],
        metadata_length(capture) == SIGNAL_OFFSET && holds_beacon(capture) ==> beacon_record(
            capture,
        ).signal_dbm == -128,
{
}

} // verus!
