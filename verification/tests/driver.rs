use wifi_backend::record::BssRecord;
use wifi_backend::scan::{
    dump_step, resolve_ifindex, waiting_step, DumpDecision, DumpEvent, PollEvent, ScanError,
    ScanNotify, WaitDecision, SCAN_TIMEOUT_MS,
};

/// One encoded attribute with 4-byte alignment padding.
fn enc(typ: u16, payload: &[u8]) -> Vec<u8> {
    let len = (payload.len() + 4) as u16;
    let mut out = Vec::new();
    out.extend_from_slice(&len.to_le_bytes());
    out.extend_from_slice(&typ.to_le_bytes());
    out.extend_from_slice(payload);
    while out.len() % 4 != 0 {
        out.push(0);
    }
    out
}

#[test]
fn no_interface_without_usable_index() {
    assert_eq!(resolve_ifindex(&Vec::new()), Err(ScanError::NoInterface));
    assert_eq!(resolve_ifindex(&vec![None, Some(Vec::new())]), Err(ScanError::NoInterface));
    // a non-empty index too short to hold a 32-bit value is not usable
    assert_eq!(resolve_ifindex(&vec![Some(vec![1, 2])]), Err(ScanError::NoInterface));
}

#[test]
fn first_nonempty_index_drives_the_scan() {
    let ifaces = vec![None, Some(Vec::new()), Some(vec![3, 0, 0, 0]), Some(vec![9, 0, 0, 0])];
    assert_eq!(resolve_ifindex(&ifaces), Ok(3));
}

#[test]
fn waiting_decisions() {
    assert_eq!(
        waiting_step(100, PollEvent::Notification(ScanNotify::ResultsReady)),
        WaitDecision::Proceed
    );
    assert_eq!(
        waiting_step(100, PollEvent::Notification(ScanNotify::Aborted)),
        WaitDecision::Fail(ScanError::ScanAborted)
    );
    assert_eq!(
        waiting_step(100, PollEvent::Notification(ScanNotify::Other)),
        WaitDecision::KeepWaiting
    );
    assert_eq!(waiting_step(100, PollEvent::Nothing), WaitDecision::KeepWaiting);
}

#[test]
fn wait_never_outlives_the_timeout() {
    // at and past the bound the wait fails with a timeout, never continues
    for elapsed in [SCAN_TIMEOUT_MS, SCAN_TIMEOUT_MS + 1, SCAN_TIMEOUT_MS + 10_000] {
        assert_eq!(
            waiting_step(elapsed, PollEvent::Nothing),
            WaitDecision::Fail(ScanError::ScanTimeout)
        );
        assert_eq!(
            waiting_step(elapsed, PollEvent::Notification(ScanNotify::ResultsReady)),
            WaitDecision::Fail(ScanError::ScanTimeout)
        );
    }
    assert_eq!(
        waiting_step(SCAN_TIMEOUT_MS - 1, PollEvent::Nothing),
        WaitDecision::KeepWaiting
    );
}

#[test]
fn dump_collects_records_from_messages() {
    let mut records: Vec<BssRecord> = Vec::new();
    let blob1 = enc(2, &2437u32.to_le_bytes());
    let blob2 = Vec::new();
    let d = dump_step(&mut records, &DumpEvent::Message(vec![blob1, blob2]));
    assert_eq!(d, DumpDecision::Continue);
    assert_eq!(records.len(), 2);
    assert_eq!(records[0].channel, Some(6));
    assert_eq!(records[1].channel, None);

    let d = dump_step(&mut records, &DumpEvent::Complete);
    assert_eq!(d, DumpDecision::Finished);
    assert_eq!(records.len(), 2);
}

#[test]
fn dump_error_discards_partial_results() {
    let mut records: Vec<BssRecord> = Vec::new();
    let blob = enc(2, &2412u32.to_le_bytes());
    dump_step(&mut records, &DumpEvent::Message(vec![blob]));
    assert_eq!(records.len(), 1);
    let d = dump_step(&mut records, &DumpEvent::ErrorMarker);
    assert_eq!(d, DumpDecision::Fail(ScanError::TransportError));
    assert!(records.is_empty());
}
