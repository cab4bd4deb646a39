//! Scan driver: the decisions of the scan state machine.
//!
//! The driver moves through trigger, wait and dump phases. The transport
//! work itself (opening the kernel attribute-message socket, sending the
//! trigger and dump requests, polling for notifications) happens outside
//! the library; the functions here take the plain values those exchanges
//! produce and decide every transition, including the bounded wait and
//! the collection of records from the dump messages.

use vstd::prelude::*;
use crate::record::{BssRecord, parse_bss, record_models, spec_extract};
use crate::tlv::{spec_decode, spec_le_u32};

verus! {

/// Why a scan call failed; terminal for the call, never retried
/// internally.
#[derive(Debug, Clone, Copy, PartialEq, Eq, Structural)]
pub enum ScanError {
    /// No usable network interface was found.
    NoInterface,
    /// A send, receive or connect failure, or an explicit kernel error
    /// marker.
    TransportError,
    /// The kernel explicitly cancelled the scan.
    ScanAborted,
    /// No completion notification arrived within the bound.
    ScanTimeout,
}

/// How long the driver waits for a scan-completion notification, in
/// milliseconds.
pub const SCAN_TIMEOUT_MS: u64 = 4000;

/// How long the driver yields the processor between empty polls, in
/// milliseconds.
pub const POLL_SLEEP_MS: u64 = 20;

/// What a notification received while waiting means for the scan.
#[derive(Debug, Clone, Copy, PartialEq, Eq, Structural)]
pub enum ScanNotify {
    /// Scan results are ready to dump.
    ResultsReady,
    /// The kernel aborted the scan.
    Aborted,
    /// Any other message; it decides nothing.
    Other,
}

/// One poll of the transport: a notification, or nothing queued.
#[derive(Debug, Clone, Copy, PartialEq, Eq, Structural)]
pub enum PollEvent {
    Notification(ScanNotify),
    Nothing,
}

/// What the waiting phase does next.
#[derive(Debug, Clone, Copy, PartialEq, Eq, Structural)]
pub enum WaitDecision {
    /// Results are ready: move on to the dump phase.
    Proceed,
    /// Keep polling; the driver yields briefly before the next poll.
    KeepWaiting,
    /// Give up with the given error.
    Fail(ScanError),
}

/// One dump message, reduced to plain values: an explicit kernel error
/// marker, the completion marker, or a message carrying the nested BSS
/// attribute payloads found in it.
pub enum DumpEvent {
    ErrorMarker,
    Complete,
    Message(Vec<Vec<u8>>),
}

/// What the dump phase does next.
#[derive(Debug, Clone, Copy, PartialEq, Eq, Structural)]
pub enum DumpDecision {
    /// Consume the next message.
    Continue,
    /// The completion marker arrived: the collected records stand.
    Finished,
    /// Give up with the given error.
    Fail(ScanError),
}

/// The index bytes of the first interface exposing a non-empty index.
pub open spec fn spec_first_index(ifaces: Seq<Option<Vec<u8>>>) -> Option<Seq<u8>>
    decreases ifaces.len(),
{
    if ifaces.len() == 0 {
        None
    } else {
        match ifaces[0] {
            Some(b) => if b@.len() > 0 {
                Some(b@)
            } else {
                spec_first_index(ifaces.skip(1))
            },
            None => spec_first_index(ifaces.skip(1)),
        }
    }
}

/// The resolved interface index: the little-endian value of the first
/// non-empty index, `NoInterface` when none exists or the bytes are too
/// few to hold an index.
pub open spec fn spec_resolve_ifindex(ifaces: Seq<Option<Vec<u8>>>) -> Result<u32, ScanError> {
    match spec_first_index(ifaces) {
        Some(b) => if b.len() >= 4 {
            Ok(spec_le_u32(b))
        } else {
            Err(ScanError::NoInterface)
        },
        None => Err(ScanError::NoInterface),
    }
}

/// Resolves the one interface index a scan is driven with, from the
/// enumerated interfaces' index bytes.
pub fn resolve_ifindex(ifaces: &Vec<Option<Vec<u8>>>) -> (r: Result<u32, ScanError>)
    ensures
        r == spec_resolve_ifindex(ifaces@),
{
    let n = ifaces.len();
    let mut i: usize = 0;
    proof {
        assert(ifaces@.skip(0) =~= ifaces@);
    }
    while i < n
        invariant
            i <= n,
            n == ifaces@.len(),
            spec_first_index(ifaces@.skip(i as int)) == spec_first_index(ifaces@),
        decreases n - i,
    {
        let ghost rem = ifaces@.skip(i as int);
        proof {
            assert(rem[0] == ifaces@[i as int]);
            assert(rem.skip(1) =~= ifaces@.skip(i + 1));
        }
        match &ifaces[i] {
            Some(b) => {
                if b.len() > 0 {
                    return match crate::tlv::le_u32(b.as_slice()) {
                        Some(v) => Ok(v),
                        None => Err(ScanError::NoInterface),
                    };
                }
            },
            None => {},
        }
        i = i + 1;
    }
    proof {
        assert(ifaces@.skip(n as int) =~= Seq::<Option<Vec<u8>>>::empty());
    }
    Err(ScanError::NoInterface)
}

/// What one poll decides while waiting for scan completion.
pub open spec fn spec_waiting_step(elapsed_ms: u64, ev: PollEvent) -> WaitDecision {
    if elapsed_ms >= SCAN_TIMEOUT_MS {
        WaitDecision::Fail(ScanError::ScanTimeout)
    } else {
        match ev {
            PollEvent::Notification(ScanNotify::ResultsReady) => WaitDecision::Proceed,
            PollEvent::Notification(ScanNotify::Aborted) => WaitDecision::Fail(
                ScanError::ScanAborted,
            ),
            _ => WaitDecision::KeepWaiting,
        }
    }
}

/// Decides one step of the waiting phase from the elapsed time and the
/// latest poll. The wait never outlives the timeout: once the elapsed
/// time reaches the bound the decision is to fail with `ScanTimeout`,
/// never to keep waiting.
pub fn waiting_step(elapsed_ms: u64, ev: PollEvent) -> (d: WaitDecision)
    ensures
        d == spec_waiting_step(elapsed_ms, ev),
        elapsed_ms >= SCAN_TIMEOUT_MS ==> d == WaitDecision::Fail(ScanError::ScanTimeout),
        d == WaitDecision::KeepWaiting ==> elapsed_ms < SCAN_TIMEOUT_MS,
{
    if elapsed_ms >= SCAN_TIMEOUT_MS {
        WaitDecision::Fail(ScanError::ScanTimeout)
    } else {
        match ev {
            PollEvent::Notification(ScanNotify::ResultsReady) => WaitDecision::Proceed,
            PollEvent::Notification(ScanNotify::Aborted) => WaitDecision::Fail(
                ScanError::ScanAborted,
            ),
            _ => WaitDecision::KeepWaiting,
        }
    }
}

/// Consumes one dump message: an error marker discards every collected
/// record and fails (a partial scan is never returned); the completion
/// marker finishes with the records untouched; any other message
/// appends one record per nested BSS payload it carries, each extracted
/// from its decoded attributes.
pub fn dump_step(records: &mut Vec<BssRecord>, ev: &DumpEvent) -> (d: DumpDecision)
    ensures
        match ev {
            DumpEvent::ErrorMarker => d == DumpDecision::Fail(ScanError::TransportError)
                && final(records)@.len() == 0,
            DumpEvent::Complete => d == DumpDecision::Finished && final(records)@ == old(records)@,
            DumpEvent::Message(blobs) => {
                &&& d == DumpDecision::Continue
                &&& final(records)@.len() == old(records)@.len() + blobs@.len()
                &&& forall|j: int|
                    0 <= j < old(records)@.len() ==> final(records)@[j] == old(records)@[j]
                &&& forall|j: int|
                    0 <= j < blobs@.len() ==> record_models(
                        #[trigger] final(records)@[old(records)@.len() + j],
                        spec_extract(spec_decode(blobs@[j]@)),
                    )
            },
        },
{
    match ev {
        DumpEvent::ErrorMarker => {
            records.clear();
            DumpDecision::Fail(ScanError::TransportError)
        },
        DumpEvent::Complete => DumpDecision::Finished,
        DumpEvent::Message(blobs) => {
            let n = blobs.len();
            let mut j: usize = 0;
            while j < n
                invariant
                    j <= n,
                    n == blobs@.len(),
                    records@.len() == old(records)@.len() + j,
                    forall|k: int|
                        0 <= k < old(records)@.len() ==> records@[k] == old(records)@[k],
                    forall|k: int|
                        0 <= k < j ==> record_models(
                            #[trigger] records@[old(records)@.len() + k],
                            spec_extract(spec_decode(blobs@[k]@)),
                        ),
                decreases n - j,
            {
                let rec = parse_bss(blobs[j].as_slice());
                records.push(rec);
                j = j + 1;
            }
            DumpDecision::Continue
        },
    }
}

} // verus!
