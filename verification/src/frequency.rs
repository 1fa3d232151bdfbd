//! Channel number to centre frequency.

use vstd::prelude::*;

verus! {

/// Centre frequency in MHz of a channel number, where the channel lies in a
/// known band: 1 to 13 and 14 in the 2.4 GHz band, 36 to 165 in the 5 GHz band.
pub open spec fn channel_frequency(channel: int) -> Option<int> {
    if 1 <= channel <= 13 {
        Some(2407 + 5 * channel)
    } else if channel == 14 {
        Some(2484)
    } else if 36 <= channel <= 165 {
        Some(5000 + 5 * channel)
    } else {
        None
    }
}

/// Maps a channel number to its centre frequency in MHz, `None` for a channel
/// outside the known bands.
pub fn frequency_for_channel(channel: u8) -> (mhz: Option<i32>)
    ensures
        match mhz {
            Some(f) => channel_frequency(channel as int) == Some(f as int),
            None => channel_frequency(channel as int) is None,
        },
{
    if 1 <= channel && channel <= 13 {
        Some(2407 + 5 * (channel as i32))
    } else if channel == 14 {
        Some(2484)
    } else if 36 <= channel && channel <= 165 {
        Some(5000 + 5 * (channel as i32))
    } else {
        None
    }
}

/// The centre frequency of a channel that may not be known: `None` where no
/// channel is known, and where the channel lies in no known band.
pub open spec fn known_frequency(channel: Option<u8>) -> Option<int> {
    match channel {
        Some(number) => channel_frequency(number as int),
        None => None,
    }
}

/// Maps a channel to its centre frequency in MHz, where a channel is known.
pub fn frequency_for_known_channel(channel: Option<u8>) -> (mhz: Option<i32>)
    ensures
        match mhz {
            Some(f) => known_frequency(channel) == Some(f as int),
            None => known_frequency(channel) is None,
        },
{
    match channel {
        Some(number) => frequency_for_channel(number),
        None => None,
    }
}

} // verus!
