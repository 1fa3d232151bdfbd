use wifi_monitor::frequency::frequency_for_channel;
use wifi_monitor::wifi::BeaconData;

fn data_on_channel(channel: Option<u8>) -> BeaconData {
    BeaconData { ssid: String::from("net"), channel, encryption: String::from("Open") }
}

#[test]
fn channel_6_is_2437() {
    assert_eq!(frequency_for_channel(6), Some(2437));
}

#[test]
fn channel_14_is_2484() {
    assert_eq!(frequency_for_channel(14), Some(2484));
}

#[test]
fn channel_40_is_5200() {
    assert_eq!(frequency_for_channel(40), Some(5200));
}

#[test]
fn channel_200_is_unmapped() {
    assert_eq!(frequency_for_channel(200), None);
}

#[test]
fn edges_of_the_low_band() {
    assert_eq!(frequency_for_channel(0), None);
    assert_eq!(frequency_for_channel(1), Some(2412));
    assert_eq!(frequency_for_channel(13), Some(2472));
    assert_eq!(frequency_for_channel(15), None);
}

#[test]
fn edges_of_the_high_band() {
    assert_eq!(frequency_for_channel(35), None);
    assert_eq!(frequency_for_channel(36), Some(5180));
    assert_eq!(frequency_for_channel(165), Some(5825));
    assert_eq!(frequency_for_channel(166), None);
    assert_eq!(frequency_for_channel(255), None);
}

#[test]
fn every_channel_follows_the_formula() {
    for channel in 0u8..=255 {
        let expected = if (1..=13).contains(&channel) {
            Some(2407 + 5 * i32::from(channel))
        } else if channel == 14 {
            Some(2484)
        } else if (36..=165).contains(&channel) {
            Some(5000 + 5 * i32::from(channel))
        } else {
            None
        };
        assert_eq!(frequency_for_channel(channel), expected);
    }
}

#[test]
fn mapping_gives_the_same_answer_twice() {
    for channel in 0u8..=255 {
        assert_eq!(frequency_for_channel(channel), frequency_for_channel(channel));
    }
}

#[test]
fn beacon_data_frequency_of_known_channel() {
    assert_eq!(data_on_channel(Some(6)).frequency_mhz(), Some(2437));
    assert_eq!(data_on_channel(Some(14)).frequency_mhz(), Some(2484));
    assert_eq!(data_on_channel(Some(40)).frequency_mhz(), Some(5200));
}

#[test]
fn beacon_data_frequency_without_channel() {
    assert_eq!(data_on_channel(None).frequency_mhz(), None);
}

#[test]
fn beacon_data_frequency_of_unmapped_channel() {
    assert_eq!(data_on_channel(Some(200)).frequency_mhz(), None);
    assert_eq!(data_on_channel(Some(0)).frequency_mhz(), None);
}
