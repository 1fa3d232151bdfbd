//! What the elements of a beacon frame tell of an access point.

use vstd::prelude::*;
use vstd::string::*;
use crate::aggregate::{aggregate, aggregate_elements, reported_name};
use crate::element::frame_elements;
use crate::frequency::{frequency_for_known_channel, known_frequency};

verus! {

/// The name, the channel and the encryption that a beacon frame announces.
#[derive(Clone, Debug, PartialEq, Eq)]
pub struct BeaconData {
    /// The name of the network: `Unknown` where the frame holds no name
    /// element, `<Hidden>` where it holds only empty ones.
    pub ssid: String,
    /// The channel number, where a channel element gave one.
    pub channel: Option<u8>,
    /// The name of the encryption level: `Open`, `WPA` or `WPA2/WPA3`.
    pub encryption: String,
}

impl BeaconData {
    /// The centre frequency of the channel in MHz: `None` where no channel is
    /// known, and where the channel lies in no known band.
    pub fn frequency_mhz(&self) -> (mhz: Option<i32>)
        ensures
            match mhz {
                Some(f) => known_frequency(self.channel) == Some(f as int),
                None => known_frequency(self.channel) is None,
            },
    {
        frequency_for_known_channel(self.channel)
    }
}

/// Reads the elements of a frame, from offset 36 to the end or to the point
/// where the frame is cut off, and reports what they tell. It accepts every
/// frame: one that is too short to hold an element tells nothing.
pub fn parse_beacon_frame(frame: &[u8]) -> (data: BeaconData)
    ensures
        data.ssid@ == reported_name(aggregate_elements(frame_elements(frame@)).name),
        data.channel == aggregate_elements(frame_elements(frame@)).channel,
        data.encryption@ == aggregate_elements(frame_elements(frame@)).encryption.label_text(),
{
    let attributes = aggregate(frame);
    BeaconData {
        ssid: attributes.reported_name(),
        channel: attributes.channel,
        encryption: String::from_str(attributes.encryption.label()),
    }
}

} // verus!
