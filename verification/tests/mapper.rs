use wifi_backend::channel::{freq_band, freq_to_channel, BAND_2_4_GHZ, BAND_5_GHZ, BAND_OTHER};

#[test]
fn known_2_4_ghz_channels() {
    assert_eq!(freq_to_channel(2412), Some(1));
    assert_eq!(freq_to_channel(2437), Some(6));
    assert_eq!(freq_to_channel(2462), Some(11));
    assert_eq!(freq_to_channel(2472), Some(13));
}

#[test]
fn known_5_ghz_channels() {
    assert_eq!(freq_to_channel(5180), Some(36));
    assert_eq!(freq_to_channel(5500), Some(100));
    assert_eq!(freq_to_channel(5825), Some(165));
    assert_eq!(freq_to_channel(5885), Some(177));
}

#[test]
fn unknown_frequencies_have_no_channel() {
    assert_eq!(freq_to_channel(2000), None);
    assert_eq!(freq_to_channel(2411), None);
    assert_eq!(freq_to_channel(2485), None);
    assert_eq!(freq_to_channel(5179), None);
    assert_eq!(freq_to_channel(5886), None);
    assert_eq!(freq_to_channel(5955), None);
    assert_eq!(freq_to_channel(0), None);
}

#[test]
fn band_classification() {
    assert_eq!(freq_band(2401), BAND_2_4_GHZ);
    assert_eq!(freq_band(2437), BAND_2_4_GHZ);
    assert_eq!(freq_band(2495), BAND_2_4_GHZ);
    assert_eq!(freq_band(5150), BAND_5_GHZ);
    assert_eq!(freq_band(5825), BAND_5_GHZ);
    assert_eq!(freq_band(5895), BAND_5_GHZ);
    assert_eq!(freq_band(2400), BAND_OTHER);
    assert_eq!(freq_band(2496), BAND_OTHER);
    assert_eq!(freq_band(5149), BAND_OTHER);
    assert_eq!(freq_band(5896), BAND_OTHER);
    assert_eq!(freq_band(6000), BAND_OTHER);
}

#[test]
fn every_mapped_frequency_lies_in_a_known_band() {
    // exhaustive over the whole mapped ranges
    for f in 2412..=2484u32 {
        assert!(freq_to_channel(f).is_some());
        assert_ne!(freq_band(f), BAND_OTHER);
    }
    for f in 5180..=5885u32 {
        assert!(freq_to_channel(f).is_some());
        assert_ne!(freq_band(f), BAND_OTHER);
    }
}
