//! Frequency/channel mapper: pure classification of a frequency in MHz
//! into a channel number and a band.

use vstd::prelude::*;

verus! {

/// Band tag for the 2.4 GHz range.
pub const BAND_2_4_GHZ: u8 = 1;

/// Band tag for the 5 GHz range.
pub const BAND_5_GHZ: u8 = 2;

/// Band tag for frequencies outside both known ranges; records in it are
/// excluded from channel comparison.
pub const BAND_OTHER: u8 = 3;

/// Channel number derived from a frequency in MHz, when the frequency
/// lies in a known band; frequencies outside all known bands have no
/// channel.
pub open spec fn spec_freq_to_channel(f: u32) -> Option<u32> {
    if 2412 <= f && f <= 2484 {
        Some((((f - 2407) / 5) as u32))
    } else if 5180 <= f && f <= 5885 {
        Some((((f - 5000) / 5) as u32))
    } else {
        None
    }
}

/// Band of a frequency in MHz.
pub open spec fn spec_freq_band(f: u32) -> u8 {
    if 2401 <= f && f <= 2495 {
        BAND_2_4_GHZ
    } else if 5150 <= f && f <= 5895 {
        BAND_5_GHZ
    } else {
        BAND_OTHER
    }
}

/// Maps a frequency in MHz to its channel number, or `None` for a
/// frequency outside all known bands.
pub fn freq_to_channel(f: u32) -> (r: Option<u32>)
    ensures
        r == spec_freq_to_channel(f),
{
    if 2412 <= f && f <= 2484 {
        Some((f - 2407) / 5)
    } else if 5180 <= f && f <= 5885 {
        Some((f - 5000) / 5)
    } else {
        None
    }
}

/// Classifies a frequency in MHz into one of the three band tags.
pub fn freq_band(freq_mhz: u32) -> (b: u8)
    ensures
        b == spec_freq_band(freq_mhz),
{
    if 2401 <= freq_mhz && freq_mhz <= 2495 {
        BAND_2_4_GHZ
    } else if 5150 <= freq_mhz && freq_mhz <= 5895 {
        BAND_5_GHZ
    } else {
        BAND_OTHER
    }
}

/// Every frequency that resolves to a channel lies in the 2.4 GHz or the
/// 5 GHz band, never in `BAND_OTHER`: the channel table and the band
/// classifier are consistent.
pub proof fn lemma_channel_implies_band(f: u32)
    ensures
        spec_freq_to_channel(f) is Some ==> spec_freq_band(f) == BAND_2_4_GHZ
            || spec_freq_band(f) == BAND_5_GHZ,
{
}

} // verus!
