//! Channel selector: turns a list of observed records and the optional
//! connected BSSID into one recommended channel, by interference-weighted
//! scoring with hysteresis toward the current channel.
//!
//! Signal strengths are handled in mBm (hundredths of a dBm) throughout,
//! so every weight is an exact integer; the surfaced dBm value is the
//! same quantity divided by 100.

use vstd::prelude::*;
use std::collections::HashMap;
use crate::channel::{freq_band, spec_freq_band};
use crate::mac::{mac_eq, same_device, spec_same_device};
use crate::record::BssRecord;

verus! {

/// Signal floor in mBm (-80.0 dBm): anything strictly weaker contributes
/// no interference weight.
pub const THRESH_MBM: i32 = -8000;

/// Hysteresis margin in hundredths of a weight unit (10.0 weight units):
/// the current channel is kept while its weight is within this margin of
/// the best alternative in its band.
pub const MARGIN_MBM: i32 = 1000;

/// Signal assumed for a record that carries none, in mBm (-90.0 dBm);
/// it lies below the floor, so such records contribute no weight.
pub const DEFAULT_SIG_MBM: i32 = -9000;

/// The signal of a record in mBm, with the default for an absent one.
pub open spec fn rec_sig_mbm(r: BssRecord) -> i32 {
    match r.signal_mbm {
        Some(s) => s,
        None => DEFAULT_SIG_MBM,
    }
}

/// The interference key of a record: its band and positive channel, when
/// both channel and frequency are present.
pub open spec fn rec_key(r: BssRecord) -> Option<(u8, u32)> {
    match (r.channel, r.freq_mhz) {
        (Option::Some(c), Option::Some(f)) => if c > 0 {
            Some((spec_freq_band(f), c))
        } else {
            None
        },
        _ => None,
    }
}

/// Whether a record's BSSID is the connected one, or is judged to belong
/// to the same physical device.
pub open spec fn own_device(r: BssRecord, conn: Option<[u8; 6]>) -> bool {
    match (conn, r.bssid) {
        (Option::Some(c), Option::Some(b)) => b@ == c@ || spec_same_device(c@, b@),
        _ => false,
    }
}

/// Whether a record adds interference weight to the key `(band, ch)`:
/// it carries that key, its signal reaches the floor, and it is not the
/// connected device itself.
pub open spec fn contributes(r: BssRecord, conn: Option<[u8; 6]>, band: u8, ch: u32) -> bool {
    &&& rec_key(r) == Some((band, ch))
    &&& rec_sig_mbm(r) >= THRESH_MBM
    &&& !own_device(r, conn)
}

/// The weight one record contributes: its signal above -100.0 dBm, in
/// hundredths, floored at zero — stronger access points weigh more.
pub open spec fn contribution(r: BssRecord) -> int {
    if rec_sig_mbm(r) + 10000 > 0 {
        rec_sig_mbm(r) + 10000
    } else {
        0
    }
}

/// Accumulated interference weight on the key `(band, ch)` over a record
/// list.
pub open spec fn spec_weight(rows: Seq<BssRecord>, conn: Option<[u8; 6]>, band: u8, ch: u32) -> int
    decreases rows.len(),
{
    if rows.len() == 0 {
        0
    } else {
        spec_weight(rows.drop_last(), conn, band, ch) + if contributes(
            rows.last(),
            conn,
            band,
            ch,
        ) {
            contribution(rows.last())
        } else {
            0
        }
    }
}

/// The band and channel of the first record whose BSSID is the connected
/// one; the first match decides, even when it lacks channel or
/// frequency.
pub open spec fn spec_current_from(rows: Seq<BssRecord>, c: [u8; 6]) -> Option<(u8, u32)>
    decreases rows.len(),
{
    if rows.len() == 0 {
        None
    } else {
        let r = rows[0];
        match r.bssid {
            Some(b) => if b@ == c@ {
                match (r.channel, r.freq_mhz) {
                    (Option::Some(ch), Option::Some(f)) => Some((spec_freq_band(f), ch)),
                    _ => None,
                }
            } else {
                spec_current_from(rows.skip(1), c)
            },
            None => spec_current_from(rows.skip(1), c),
        }
    }
}

/// The current band and channel resolved from the connected BSSID, when
/// one is known.
pub open spec fn spec_current(rows: Seq<BssRecord>, conn: Option<[u8; 6]>) -> Option<(u8, u32)> {
    match conn {
        Some(c) => spec_current_from(rows, c),
        None => None,
    }
}

/// Whether a record introduces a candidate key, under an optional band
/// restriction.
pub open spec fn is_candidate(r: BssRecord, conn: Option<[u8; 6]>, bf: Option<u8>) -> bool {
    match rec_key(r) {
        Some(k) => rec_sig_mbm(r) >= THRESH_MBM && !own_device(r, conn) && (bf is None || bf
            == Some(k.0)),
        None => false,
    }
}

/// The minimum-weight candidate key, scanning records from index `i` on
/// with accumulator `acc`; a strictly lower weight replaces the
/// accumulator, so among equal minima the earliest candidate wins.
pub open spec fn spec_best_loop(
    rows: Seq<BssRecord>,
    conn: Option<[u8; 6]>,
    bf: Option<u8>,
    i: int,
    acc: Option<(u8, u32)>,
) -> Option<(u8, u32)>
    decreases rows.len() - i,
{
    if i < 0 || i >= rows.len() {
        acc
    } else {
        let acc2 = if is_candidate(rows[i], conn, bf) {
            let k = rec_key(rows[i])->0;
            match acc {
                None => Some(k),
                Some(a) => if spec_weight(rows, conn, k.0, k.1) < spec_weight(
                    rows,
                    conn,
                    a.0,
                    a.1,
                ) {
                    Some(k)
                } else {
                    acc
                },
            }
        } else {
            acc
        };
        spec_best_loop(rows, conn, bf, i + 1, acc2)
    }
}

/// The recommended channel. With a resolved current channel and band,
/// the minimum-weight channel of that band is chosen unless the current
/// channel's weight is within the margin of it (or the band has no
/// candidate at all), in which case the current channel is kept. With no
/// connection state, the globally minimum-weight channel is chosen, and
/// channel 1 when no interference was observed at all.
pub open spec fn spec_best_channel(rows: Seq<BssRecord>, conn: Option<[u8; 6]>) -> u32 {
    match spec_current(rows, conn) {
        Some(cur) => {
            match spec_best_loop(rows, conn, Some(cur.0), 0, None) {
                None => cur.1,
                Some(bk) => if spec_weight(rows, conn, cur.0, cur.1) <= spec_weight(
                    rows,
                    conn,
                    bk.0,
                    bk.1,
                ) + MARGIN_MBM {
                    cur.1
                } else {
                    bk.1
                },
            }
        },
        None => {
            match spec_best_loop(rows, conn, None, 0, None) {
                None => 1,
                Some(bk) => bk.1,
            }
        },
    }
}

/// Every weight is nonnegative and bounded by the record count times the
/// largest single contribution.
pub proof fn lemma_weight_bound(rows: Seq<BssRecord>, conn: Option<[u8; 6]>, band: u8, ch: u32)
    ensures
        0 <= spec_weight(rows, conn, band, ch) <= rows.len() * 0x1_0000_0000,
    decreases rows.len(),
{
    if rows.len() == 0 {
    } else {
        lemma_weight_bound(rows.drop_last(), conn, band, ch);
        assert((rows.len() - 1) * 0x1_0000_0000 + 0x1_0000_0000 == rows.len() * 0x1_0000_0000)
            by (nonlinear_arith);
    }
}

/// Appending a record that does not contribute to a key leaves that
/// key's weight unchanged.
pub proof fn lemma_weight_push_other(
    rows: Seq<BssRecord>,
    conn: Option<[u8; 6]>,
    r: BssRecord,
    band: u8,
    ch: u32,
)
    requires
        !contributes(r, conn, band, ch),
    ensures
        spec_weight(rows.push(r), conn, band, ch) == spec_weight(rows, conn, band, ch),
{
    assert(rows.push(r).drop_last() =~= rows);
    assert(rows.push(r).last() == r);
}

/// A record whose signal lies strictly below the floor contributes zero
/// weight to every band and channel, wherever it sits.
pub proof fn lemma_below_floor_no_weight(
    rows: Seq<BssRecord>,
    conn: Option<[u8; 6]>,
    r: BssRecord,
)
    requires
        rec_sig_mbm(r) < THRESH_MBM,
    ensures
        forall|band: u8, ch: u32|
            spec_weight(rows.push(r), conn, band, ch) == spec_weight(rows, conn, band, ch),
{
    assert forall|band: u8, ch: u32|
        spec_weight(rows.push(r), conn, band, ch) == spec_weight(rows, conn, band, ch) by {
        assert(!contributes(r, conn, band, ch));
        lemma_weight_push_other(rows, conn, r, band, ch);
    }
}

/// Appending a record leaves the resolved current channel unchanged
/// once one is resolved: the first matching record still decides.
proof fn lemma_current_from_push(rows: Seq<BssRecord>, c: [u8; 6], r: BssRecord)
    requires
        spec_current_from(rows, c) is Some,
    ensures
        spec_current_from(rows.push(r), c) == spec_current_from(rows, c),
    decreases rows.len(),
{
    if rows.len() == 0 {
    } else {
        let r0 = rows[0];
        assert(rows.push(r)[0] == rows[0]);
        match r0.bssid {
            Some(b) => {
                if b@ == c@ {
                } else {
                    assert(rows.push(r).skip(1) =~= rows.skip(1).push(r));
                    lemma_current_from_push(rows.skip(1), c, r);
                }
            },
            None => {
                assert(rows.push(r).skip(1) =~= rows.skip(1).push(r));
                lemma_current_from_push(rows.skip(1), c, r);
            },
        }
    }
}

/// Under a band filter, the minimum-weight scan only ever holds keys of
/// that band.
proof fn lemma_best_loop_band(
    rows: Seq<BssRecord>,
    conn: Option<[u8; 6]>,
    band: u8,
    i: int,
    acc: Option<(u8, u32)>,
)
    requires
        0 <= i <= rows.len(),
        match acc {
            Some(a) => a.0 == band,
            None => true,
        },
    ensures
        match spec_best_loop(rows, conn, Some(band), i, acc) {
            Some(k) => k.0 == band,
            None => acc is None,
        },
    decreases rows.len() - i,
{
    if i >= rows.len() {
    } else {
        let acc2 = if is_candidate(rows[i], conn, Some(band)) {
            let k = rec_key(rows[i])->0;
            match acc {
                None => Some(k),
                Some(a) => if spec_weight(rows, conn, k.0, k.1) < spec_weight(
                    rows,
                    conn,
                    a.0,
                    a.1,
                ) {
                    Some(k)
                } else {
                    acc
                },
            }
        } else {
            acc
        };
        lemma_best_loop_band(rows, conn, band, i + 1, acc2);
    }
}

/// Appending a record whose key lies outside the filtered band leaves
/// the minimum-weight scan of that band unchanged.
proof fn lemma_best_loop_push_other_band(
    rows: Seq<BssRecord>,
    conn: Option<[u8; 6]>,
    r: BssRecord,
    band: u8,
    i: int,
    acc: Option<(u8, u32)>,
)
    requires
        0 <= i <= rows.len(),
        match rec_key(r) {
            Some(k) => k.0 != band,
            None => true,
        },
        match acc {
            Some(a) => a.0 == band,
            None => true,
        },
    ensures
        spec_best_loop(rows.push(r), conn, Some(band), i, acc) == spec_best_loop(
            rows,
            conn,
            Some(band),
            i,
            acc,
        ),
    decreases rows.len() - i,
{
    let pushed = rows.push(r);
    if i >= rows.len() {
        assert(pushed[i] == r);
        assert(!is_candidate(r, conn, Some(band)));
        assert(spec_best_loop(pushed, conn, Some(band), i, acc) == spec_best_loop(
            pushed,
            conn,
            Some(band),
            i + 1,
            acc,
        ));
    } else {
        assert(pushed[i] == rows[i]);
        if is_candidate(rows[i], conn, Some(band)) {
            let k = rec_key(rows[i])->0;
            lemma_weight_push_other(rows, conn, r, k.0, k.1);
            match acc {
                Some(a) => lemma_weight_push_other(rows, conn, r, a.0, a.1),
                None => (),
            }
        }
        let acc2 = if is_candidate(rows[i], conn, Some(band)) {
            let k = rec_key(rows[i])->0;
            match acc {
                None => Some(k),
                Some(a) => if spec_weight(rows, conn, k.0, k.1) < spec_weight(
                    rows,
                    conn,
                    a.0,
                    a.1,
                ) {
                    Some(k)
                } else {
                    acc
                },
            }
        } else {
            acc
        };
        lemma_best_loop_push_other_band(rows, conn, r, band, i + 1, acc2);
    }
}

/// What the minimum-weight scan guarantees: the key it settles on never
/// weighs more than the accumulator it started from, nor than the key of
/// any candidate record it scanned; and it settles on nothing only when
/// it started from nothing and saw no candidate at all.
pub proof fn lemma_best_loop_minimal(
    rows: Seq<BssRecord>,
    conn: Option<[u8; 6]>,
    bf: Option<u8>,
    i: int,
    acc: Option<(u8, u32)>,
)
    requires
        0 <= i <= rows.len(),
    ensures
        match spec_best_loop(rows, conn, bf, i, acc) {
            Some(k) => {
                &&& (match acc {
                    Some(a) => spec_weight(rows, conn, k.0, k.1) <= spec_weight(
                        rows,
                        conn,
                        a.0,
                        a.1,
                    ),
                    None => true,
                })
                &&& forall|j: int|
                    i <= j < rows.len() && #[trigger] is_candidate(rows[j], conn, bf)
                        ==> spec_weight(rows, conn, k.0, k.1) <= spec_weight(
                        rows,
                        conn,
                        (rec_key(rows[j])->0).0,
                        (rec_key(rows[j])->0).1,
                    )
            },
            None => acc is None && forall|j: int|
                i <= j < rows.len() ==> !#[trigger] is_candidate(rows[j], conn, bf),
        },
    decreases rows.len() - i,
{
    if i >= rows.len() {
    } else {
        let acc2 = if is_candidate(rows[i], conn, bf) {
            let k = rec_key(rows[i])->0;
            match acc {
                None => Some(k),
                Some(a) => if spec_weight(rows, conn, k.0, k.1) < spec_weight(
                    rows,
                    conn,
                    a.0,
                    a.1,
                ) {
                    Some(k)
                } else {
                    acc
                },
            }
        } else {
            acc
        };
        lemma_best_loop_minimal(rows, conn, bf, i + 1, acc2);
    }
}

/// Hysteresis: with a resolved current channel, the recommendation
/// stays on it whenever its weight lies within the margin of the best
/// candidate of its band (or the band has no candidate), and moves to
/// that candidate's channel only when the margin is exceeded.
pub proof fn lemma_hysteresis(rows: Seq<BssRecord>, conn: Option<[u8; 6]>)
    requires
        spec_current(rows, conn) is Some,
    ensures
        ({
            let cur = spec_current(rows, conn)->0;
            match spec_best_loop(rows, conn, Some(cur.0), 0, None) {
                None => spec_best_channel(rows, conn) == cur.1,
                Some(bk) => {
                    &&& spec_weight(rows, conn, cur.0, cur.1) <= spec_weight(
                        rows,
                        conn,
                        bk.0,
                        bk.1,
                    ) + MARGIN_MBM ==> spec_best_channel(rows, conn) == cur.1
                    &&& spec_weight(rows, conn, cur.0, cur.1) > spec_weight(
                        rows,
                        conn,
                        bk.0,
                        bk.1,
                    ) + MARGIN_MBM ==> spec_best_channel(rows, conn) == bk.1
                },
            }
        }),
{
}

/// Band isolation: when the connected device's band is known, appending
/// a record of another band (or of no band at all) never changes the
/// chosen channel — a 5 GHz record never influences the choice made on
/// a 2.4 GHz channel, and vice versa.
pub proof fn lemma_band_isolation(rows: Seq<BssRecord>, conn: Option<[u8; 6]>, r: BssRecord)
    requires
        spec_current(rows, conn) is Some,
        match rec_key(r) {
            Some(k) => k.0 != (spec_current(rows, conn)->0).0,
            None => true,
        },
    ensures
        spec_best_channel(rows.push(r), conn) == spec_best_channel(rows, conn),
{
    let cur = spec_current(rows, conn)->0;
    match conn {
        Some(c) => {
            lemma_current_from_push(rows, c, r);
        },
        None => {},
    }
    lemma_best_loop_push_other_band(rows, conn, r, cur.0, 0, None);
    lemma_best_loop_band(rows, conn, cur.0, 0, None);
    match spec_best_loop(rows, conn, Some(cur.0), 0, None) {
        None => {},
        Some(bk) => {
            assert(!contributes(r, conn, cur.0, cur.1));
            assert(!contributes(r, conn, bk.0, bk.1));
            lemma_weight_push_other(rows, conn, r, cur.0, cur.1);
            lemma_weight_push_other(rows, conn, r, bk.0, bk.1);
        },
    }
}

/// The signal of a record, with the default for an absent one.
fn rec_sig(r: &BssRecord) -> (s: i32)
    ensures
        s == rec_sig_mbm(*r),
{
    match r.signal_mbm {
        Some(s) => s,
        None => DEFAULT_SIG_MBM,
    }
}

/// The interference key of a record.
fn rec_key_exec(r: &BssRecord) -> (k: Option<(u8, u32)>)
    ensures
        k == rec_key(*r),
{
    match (r.channel, r.freq_mhz) {
        (Option::Some(c), Option::Some(f)) => if c > 0 {
            Some((freq_band(f), c))
        } else {
            None
        },
        _ => None,
    }
}

/// Whether a record belongs to the connected device.
fn own_device_exec(r: &BssRecord, conn: &Option<[u8; 6]>) -> (b: bool)
    ensures
        b == own_device(*r, *conn),
{
    match (conn, &r.bssid) {
        (Option::Some(c), Option::Some(b)) => mac_eq(b, c) || same_device(c, b),
        _ => false,
    }
}

/// Computes the interference weight on the key `(band, ch)`.
fn weight_of(rows: &Vec<BssRecord>, conn: &Option<[u8; 6]>, band: u8, ch: u32) -> (w: u128)
    ensures
        w == spec_weight(rows@, *conn, band, ch),
{
    let n = rows.len();
    let mut w: u128 = 0;
    let mut i: usize = 0;
    proof {
        assert(rows@.take(0) =~= Seq::<BssRecord>::empty());
    }
    while i < n
        invariant
            i <= n,
            n == rows@.len(),
            w == spec_weight(rows@.take(i as int), *conn, band, ch),
        decreases n - i,
    {
        let r = &rows[i];
        proof {
            assert(rows@.take(i + 1).drop_last() =~= rows@.take(i as int));
            assert(rows@.take(i + 1).last() == rows@[i as int]);
            lemma_weight_bound(rows@.take(i as int), *conn, band, ch);
            vstd::arithmetic::mul::lemma_mul_inequality(i as int, usize::MAX as int, 0x1_0000_0000);
        }
        let key = rec_key_exec(r);
        let sig = rec_sig(r);
        let is_contrib = match key {
            Some((b, c)) => b == band && c == ch && sig >= THRESH_MBM && !own_device_exec(r, conn),
            None => false,
        };
        if is_contrib {
            let c64: i64 = sig as i64 + 10000;
            let add: u128 = if c64 > 0 {
                c64 as u128
            } else {
                0
            };
            w = w + add;
        }
        i = i + 1;
    }
    proof {
        assert(rows@.take(n as int) =~= rows@);
    }
    w
}

/// Resolves the current band and channel from the connected BSSID.
fn find_current(rows: &Vec<BssRecord>, conn: &Option<[u8; 6]>) -> (cur: Option<(u8, u32)>)
    ensures
        cur == spec_current(rows@, *conn),
{
    let cmac = match conn {
        Some(c) => c,
        None => {
            return None;
        },
    };
    let n = rows.len();
    let mut i: usize = 0;
    proof {
        assert(rows@.skip(0) =~= rows@);
    }
    while i < n
        invariant
            i <= n,
            n == rows@.len(),
            *conn == Some(*cmac),
            spec_current_from(rows@.skip(i as int), *cmac) == spec_current_from(rows@, *cmac),
        decreases n - i,
    {
        let ghost rem = rows@.skip(i as int);
        let r = &rows[i];
        proof {
            assert(rem[0] == rows@[i as int]);
            assert(rem.skip(1) =~= rows@.skip(i + 1));
        }
        match &r.bssid {
            Some(b) => {
                if mac_eq(b, cmac) {
                    let res = match (r.channel, r.freq_mhz) {
                        (Option::Some(ch), Option::Some(f)) => Some((freq_band(f), ch)),
                        _ => None,
                    };
                    return res;
                }
            },
            None => {},
        }
        i = i + 1;
    }
    proof {
        assert(rows@.skip(n as int) =~= Seq::<BssRecord>::empty());
    }
    None
}

/// Finds the minimum-weight candidate key, optionally restricted to one
/// band; among equal minima the earliest record's key wins.
fn best_key(rows: &Vec<BssRecord>, conn: &Option<[u8; 6]>, band_filter: Option<u8>) -> (best: Option<
    (u8, u32),
>)
    ensures
        best == spec_best_loop(rows@, *conn, band_filter, 0, None),
{
    let n = rows.len();
    let mut acc: Option<(u8, u32)> = None;
    let mut i: usize = 0;
    while i < n
        invariant
            i <= n,
            n == rows@.len(),
            spec_best_loop(rows@, *conn, band_filter, i as int, acc) == spec_best_loop(
                rows@,
                *conn,
                band_filter,
                0,
                None,
            ),
        decreases n - i,
    {
        let r = &rows[i];
        let key = rec_key_exec(r);
        let sig = rec_sig(r);
        match key {
            Some((b, ch)) => {
                let band_ok = match band_filter {
                    Some(bf) => bf == b,
                    None => true,
                };
                if sig >= THRESH_MBM && !own_device_exec(r, conn) && band_ok {
                    proof {
                        assert(is_candidate(rows@[i as int], *conn, band_filter));
                    }
                    match acc {
                        None => {
                            acc = Some((b, ch));
                        },
                        Some((ab, ac)) => {
                            let w_new = weight_of(rows, conn, b, ch);
                            let w_acc = weight_of(rows, conn, ab, ac);
                            if w_new < w_acc {
                                acc = Some((b, ch));
                            }
                        },
                    }
                } else {
                    proof {
                        assert(!is_candidate(rows@[i as int], *conn, band_filter));
                    }
                }
            },
            None => {},
        }
        i = i + 1;
    }
    acc
}

/// Whether a record is counted toward a channel's record tally.
pub open spec fn counted(r: BssRecord, ch: u32) -> bool {
    r.channel == Some(ch) && ch > 0
}

/// How many records sit on a channel.
pub open spec fn spec_channel_count(rows: Seq<BssRecord>, ch: u32) -> int
    decreases rows.len(),
{
    if rows.len() == 0 {
        0
    } else {
        spec_channel_count(rows.drop_last(), ch) + if counted(rows.last(), ch) {
            1int
        } else {
            0int
        }
    }
}

/// A channel's record count never exceeds the record count.
pub proof fn lemma_channel_count_bound(rows: Seq<BssRecord>, ch: u32)
    ensures
        0 <= spec_channel_count(rows, ch) <= rows.len(),
    decreases rows.len(),
{
    if rows.len() == 0 {
    } else {
        lemma_channel_count_bound(rows.drop_last(), ch);
    }
}

/// Counts how many records sit on each positive channel: the map holds
/// exactly the channels with at least one record, each with its count.
pub fn compute_channels_internal(rows: &Vec<BssRecord>) -> (counts: HashMap<u32, u32>)
    requires
        rows@.len() <= u32::MAX,
    ensures
        forall|ch: u32| counts@.contains_key(ch) <==> spec_channel_count(rows@, ch) > 0,
        forall|ch: u32|
            counts@.contains_key(ch) ==> counts@[ch] == spec_channel_count(rows@, ch),
{
    let n = rows.len();
    let mut counts: HashMap<u32, u32> = HashMap::new();
    let mut i: usize = 0;
    proof {
        assert(rows@.take(0) =~= Seq::<BssRecord>::empty());
    }
    while i < n
        invariant
            i <= n,
            n == rows@.len(),
            n <= u32::MAX,
            forall|ch: u32|
                counts@.contains_key(ch) <==> spec_channel_count(rows@.take(i as int), ch) > 0,
            forall|ch: u32|
                counts@.contains_key(ch) ==> counts@[ch] == spec_channel_count(
                    rows@.take(i as int),
                    ch,
                ),
        decreases n - i,
    {
        let r = &rows[i];
        proof {
            assert(rows@.take(i + 1).drop_last() =~= rows@.take(i as int));
            assert(rows@.take(i + 1).last() == rows@[i as int]);
        }
        match r.channel {
            Some(c) => {
                if c > 0 {
                    proof {
                        lemma_channel_count_bound(rows@.take(i as int), c);
                    }
                    let prev = match counts.get(&c) {
                        Some(v) => *v,
                        None => 0,
                    };
                    counts.insert(c, prev + 1);
                }
            },
            None => {},
        }
        i = i + 1;
    }
    proof {
        assert(rows@.take(n as int) =~= rows@);
    }
    counts
}

/// Recommends the channel for the host's own access point, given the
/// scanned records and the connected BSSID when known: interference
/// weights per band and channel, a signal floor, the connected device
/// excluded, hysteresis toward the current channel within its band, and
/// channel 1 when nothing at all was observed.
pub fn compute_best_channel_internal(rows: &Vec<BssRecord>, connected: &Option<[u8; 6]>) -> (best:
    u32)
    ensures
        best == spec_best_channel(rows@, *connected),
{
    let n = rows.len();
    let cur = find_current(rows, connected);
    match cur {
        Some((cur_band, cur_ch)) => {
            match best_key(rows, connected, Some(cur_band)) {
                None => cur_ch,
                Some((bb, bch)) => {
                    let cur_w = weight_of(rows, connected, cur_band, cur_ch);
                    let best_w = weight_of(rows, connected, bb, bch);
                    proof {
                        lemma_weight_bound(rows@, *connected, bb, bch);
                        vstd::arithmetic::mul::lemma_mul_inequality(
                            n as int,
                            usize::MAX as int,
                            0x1_0000_0000,
                        );
                    }
                    if cur_w <= best_w + (MARGIN_MBM as u128) {
                        cur_ch
                    } else {
                        bch
                    }
                },
            }
        },
        None => {
            match best_key(rows, connected, None) {
                None => 1,
                Some((_b, bch)) => bch,
            }
        },
    }
}

} // verus!
