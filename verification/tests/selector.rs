use std::collections::HashMap;
use wifi_backend::channel::freq_to_channel;
use wifi_backend::record::BssRecord;
use wifi_backend::select::{compute_best_channel_internal, compute_channels_internal};

fn rec(bssid: Option<[u8; 6]>, freq: Option<u32>, signal_mbm: Option<i32>) -> BssRecord {
    let channel = match freq {
        Some(f) => freq_to_channel(f),
        None => None,
    };
    BssRecord { ssid: None, bssid, freq_mhz: freq, signal_mbm, channel }
}

const CMAC: [u8; 6] = [2, 2, 2, 2, 2, 2];

#[test]
fn empty_scan_unknown_connection_defaults_to_1() {
    let rows: Vec<BssRecord> = Vec::new();
    assert_eq!(compute_best_channel_internal(&rows, &None), 1);
}

#[test]
fn global_minimum_wins_without_connection_state() {
    // three records on channel 1, one on channel 6 at the signal floor
    let rows = vec![
        rec(Some([9, 9, 9, 9, 9, 1]), Some(2412), Some(-4000)),
        rec(Some([9, 9, 9, 9, 9, 2]), Some(2412), Some(-4500)),
        rec(Some([9, 9, 9, 9, 9, 3]), Some(2412), Some(-5000)),
        rec(Some([9, 9, 9, 9, 9, 4]), Some(2437), Some(-8000)),
    ];
    assert_eq!(compute_best_channel_internal(&rows, &None), 6);
}

#[test]
fn hysteresis_keeps_current_channel_within_margin() {
    // current channel 6 carries weight 55.00, the alternative channel 11
    // weight 50.00: within the margin of 10.00, so stay on 6
    let rows = vec![
        rec(Some(CMAC), Some(2437), Some(-3000)),
        rec(Some([9, 9, 9, 9, 9, 1]), Some(2437), Some(-4500)),
        rec(Some([8, 8, 8, 8, 8, 1]), Some(2462), Some(-5000)),
    ];
    assert_eq!(compute_best_channel_internal(&rows, &Some(CMAC)), 6);
}

#[test]
fn hysteresis_moves_when_margin_exceeded() {
    // current channel 6 carries weight 65.00, the alternative channel 11
    // weight 50.00: beyond the margin, so move to 11
    let rows = vec![
        rec(Some(CMAC), Some(2437), Some(-3000)),
        rec(Some([9, 9, 9, 9, 9, 1]), Some(2437), Some(-3500)),
        rec(Some([8, 8, 8, 8, 8, 1]), Some(2462), Some(-5000)),
    ];
    assert_eq!(compute_best_channel_internal(&rows, &Some(CMAC)), 11);
}

#[test]
fn uncontested_band_keeps_current_channel() {
    // connected on channel 6; the only interference sits in the 5 GHz band
    let rows = vec![
        rec(Some(CMAC), Some(2437), Some(-3000)),
        rec(Some([7, 7, 7, 7, 7, 1]), Some(5180), Some(-2000)),
    ];
    assert_eq!(compute_best_channel_internal(&rows, &Some(CMAC)), 6);
}

#[test]
fn other_band_never_influences_the_choice() {
    // connected on 2.4 GHz: a strong 5 GHz record changes nothing
    let base = vec![
        rec(Some(CMAC), Some(2437), Some(-3000)),
        rec(Some([9, 9, 9, 9, 9, 1]), Some(2437), Some(-3500)),
        rec(Some([8, 8, 8, 8, 8, 1]), Some(2412), Some(-5000)),
    ];
    let mut with_5ghz = base.clone();
    with_5ghz.push(rec(Some([7, 7, 7, 7, 7, 1]), Some(5180), Some(-2000)));
    let without = compute_best_channel_internal(&base, &Some(CMAC));
    let with_it = compute_best_channel_internal(&with_5ghz, &Some(CMAC));
    assert_eq!(without, with_it);
    assert_eq!(with_it, 1);
}

#[test]
fn below_floor_record_contributes_nothing() {
    // -95.00 dBm lies below the -80.00 dBm floor: no weight at all,
    // so the default channel wins
    let rows = vec![rec(Some([9, 9, 9, 9, 9, 1]), Some(2437), Some(-9500))];
    assert_eq!(compute_best_channel_internal(&rows, &None), 1);
}

#[test]
fn missing_signal_is_treated_as_below_floor() {
    let rows = vec![rec(Some([9, 9, 9, 9, 9, 1]), Some(2437), None)];
    assert_eq!(compute_best_channel_internal(&rows, &None), 1);
}

#[test]
fn own_and_same_device_records_are_not_interference() {
    // the connected radio and its same-device sibling (middle bytes
    // match) sit on channel 6; a weak stranger sits on channel 1
    let rows = vec![
        rec(Some(CMAC), Some(2437), Some(-3000)),
        rec(Some([0xf0, 2, 2, 2, 2, 0xf5]), Some(2437), Some(-2000)),
        rec(Some([9, 9, 9, 9, 9, 1]), Some(2412), Some(-7500)),
    ];
    // channel 6 carries no foreign weight; channel 1 carries some; stay on 6
    assert_eq!(compute_best_channel_internal(&rows, &Some(CMAC)), 6);
}

#[test]
fn equal_minima_take_the_earliest_candidate() {
    let rows = vec![
        rec(Some([9, 9, 9, 9, 9, 1]), Some(2437), Some(-5000)),
        rec(Some([8, 8, 8, 8, 8, 1]), Some(2412), Some(-5000)),
    ];
    assert_eq!(compute_best_channel_internal(&rows, &None), 6);
}

#[test]
fn histogram_counts_records_per_channel() {
    let rows = vec![
        rec(Some([9, 9, 9, 9, 9, 1]), Some(2412), Some(-4000)),
        rec(Some([9, 9, 9, 9, 9, 2]), Some(2412), Some(-6000)),
        rec(Some([9, 9, 9, 9, 9, 3]), Some(2437), Some(-5000)),
        rec(None, None, None),
    ];
    let counts: HashMap<u32, u32> = compute_channels_internal(&rows);
    assert_eq!(counts.len(), 2);
    assert_eq!(counts.get(&1), Some(&2));
    assert_eq!(counts.get(&6), Some(&1));
}

#[test]
fn histogram_of_nothing_is_empty() {
    let rows: Vec<BssRecord> = Vec::new();
    assert!(compute_channels_internal(&rows).is_empty());
}
