//! Record extractor: interprets the decoded attributes of one observed
//! access point (BSS) into a structured record.
//!
//! Fields are filled first-match-wins per source; the precise signal
//! attribute takes priority over the coarse one, and the SSID found in
//! the information elements takes priority over the alternate SSID
//! attribute. Unrecognized attributes are ignored; a payload that yields
//! no usable fields still produces an (empty) record.

use vstd::prelude::*;
use crate::channel::spec_freq_to_channel;
use crate::channel::freq_to_channel;
use crate::mac::vec_to_mac;
use crate::tlv::{AttrModel, TlvAttr, attrs_model, decode_attrs, le_u32, spec_decode, spec_le_u32};

verus! {

/// Attribute type carrying the BSSID bytes.
pub const ATTR_BSSID: u16 = 1;

/// Attribute type carrying the frequency in MHz.
pub const ATTR_FREQUENCY: u16 = 2;

/// Attribute type carrying the coarse signal strength (single byte).
pub const ATTR_SIGNAL_UNSPEC: u16 = 7;

/// Attribute type carrying the information elements.
pub const ATTR_INFORMATION_ELEMENTS: u16 = 8;

/// Attribute type carrying the precise signal strength in mBm.
pub const ATTR_SIGNAL_MBM: u16 = 10;

/// Attribute type carrying a driver-specific SSID fallback.
pub const ATTR_SSID_ALT: u16 = 31;

/// One observed access point at scan time. The signal strength is kept
/// in mBm (hundredths of a dBm), the fixed-point unit the kernel
/// reports; more negative means weaker.
#[derive(Debug, Clone)]
pub struct BssRecord {
    pub ssid: Option<String>,
    pub bssid: Option<[u8; 6]>,
    pub freq_mhz: Option<u32>,
    pub signal_mbm: Option<i32>,
    pub channel: Option<u32>,
}

/// Mathematical model of a record: the SSID as the raw bytes it was
/// decoded from.
#[verifier::ext_equal]
pub ghost struct BssModel {
    pub ssid: Option<Seq<u8>>,
    pub bssid: Option<Seq<u8>>,
    pub freq_mhz: Option<u32>,
    pub signal_mbm: Option<i32>,
    pub channel: Option<u32>,
}

/// The characters that lossy UTF-8 decoding gives for a byte sequence.
pub uninterp spec fn lossy_of(b: Seq<u8>) -> Seq<char>;

/// Relies on `String::from_utf8_lossy`: the result is a function of the
/// bytes alone (invalid sequences are replaced with the replacement
/// character, never an error), and an empty input gives an empty string.
#[verifier::external_body]
fn lossy_string(b: &[u8]) -> (r: String)
    ensures
        r@ == lossy_of(b@),
        b@.len() == 0 ==> r@.len() == 0,
{
    String::from_utf8_lossy(b).to_string()
}

/// The first value if present, else the second.
pub open spec fn opt_or<T>(a: Option<T>, b: Option<T>) -> Option<T> {
    if a is Some {
        a
    } else {
        b
    }
}

/// The value bytes of the first information element with id 0 (the
/// SSID), or `None` when no such element parses.
pub open spec fn spec_find_ssid_ie(ies: Seq<u8>) -> Option<Seq<u8>>
    decreases ies.len(),
{
    if ies.len() < 2 {
        None
    } else {
        let id = ies[0];
        let len = ies[1] as int;
        if len > ies.len() - 2 {
            None
        } else if id == 0 {
            Some(ies.subrange(2, 2 + len))
        } else {
            spec_find_ssid_ie(ies.skip(2 + len))
        }
    }
}

/// The BSSID bytes of the first attribute that carries one.
pub open spec fn first_bssid(attrs: Seq<AttrModel>) -> Option<Seq<u8>>
    decreases attrs.len(),
{
    if attrs.len() == 0 {
        None
    } else if attrs[0].typ == ATTR_BSSID && attrs[0].payload.len() >= 6 {
        Some(attrs[0].payload.subrange(0, 6))
    } else {
        first_bssid(attrs.skip(1))
    }
}

/// The frequency of the first attribute that carries one.
pub open spec fn first_freq(attrs: Seq<AttrModel>) -> Option<u32>
    decreases attrs.len(),
{
    if attrs.len() == 0 {
        None
    } else if attrs[0].typ == ATTR_FREQUENCY && attrs[0].payload.len() >= 4 {
        Some(spec_le_u32(attrs[0].payload))
    } else {
        first_freq(attrs.skip(1))
    }
}

/// The SSID bytes of the first information-elements attribute that
/// yields one.
pub open spec fn first_ssid_ie(attrs: Seq<AttrModel>) -> Option<Seq<u8>>
    decreases attrs.len(),
{
    if attrs.len() == 0 {
        None
    } else if attrs[0].typ == ATTR_INFORMATION_ELEMENTS && spec_find_ssid_ie(attrs[0].payload) is Some {
        spec_find_ssid_ie(attrs[0].payload)
    } else {
        first_ssid_ie(attrs.skip(1))
    }
}

/// The bytes of the first non-empty alternate SSID attribute.
pub open spec fn first_ssid_alt(attrs: Seq<AttrModel>) -> Option<Seq<u8>>
    decreases attrs.len(),
{
    if attrs.len() == 0 {
        None
    } else if attrs[0].typ == ATTR_SSID_ALT && attrs[0].payload.len() > 0 {
        Some(attrs[0].payload)
    } else {
        first_ssid_alt(attrs.skip(1))
    }
}

/// The precise signal strength in mBm of the first attribute that
/// carries one.
pub open spec fn first_sig_mbm(attrs: Seq<AttrModel>) -> Option<i32>
    decreases attrs.len(),
{
    if attrs.len() == 0 {
        None
    } else if attrs[0].typ == ATTR_SIGNAL_MBM && attrs[0].payload.len() >= 4 {
        Some(spec_le_u32(attrs[0].payload) as i32)
    } else {
        first_sig_mbm(attrs.skip(1))
    }
}

/// The coarse signal strength of the first attribute that carries one,
/// mapped to mBm by the rough `raw byte minus 100` dBm approximation.
pub open spec fn first_sig_unspec(attrs: Seq<AttrModel>) -> Option<i32>
    decreases attrs.len(),
{
    if attrs.len() == 0 {
        None
    } else if attrs[0].typ == ATTR_SIGNAL_UNSPEC && attrs[0].payload.len() > 0 {
        Some((attrs[0].payload[0] * 100 - 10000) as i32)
    } else {
        first_sig_unspec(attrs.skip(1))
    }
}

/// The record that a decoded attribute sequence describes.
pub open spec fn spec_extract(attrs: Seq<AttrModel>) -> BssModel {
    let freq = first_freq(attrs);
    BssModel {
        ssid: opt_or(first_ssid_ie(attrs), first_ssid_alt(attrs)),
        bssid: first_bssid(attrs),
        freq_mhz: freq,
        signal_mbm: opt_or(first_sig_mbm(attrs), first_sig_unspec(attrs)),
        channel: match freq {
            Some(f) => spec_freq_to_channel(f),
            None => None,
        },
    }
}

/// Whether an optional exec string is the lossy decoding of an optional
/// byte sequence.
pub open spec fn opt_str_models(s: Option<String>, b: Option<Seq<u8>>) -> bool {
    match (s, b) {
        (Option::None, Option::None) => true,
        (Option::Some(st), Option::Some(bs)) => st@ == lossy_of(bs),
        _ => false,
    }
}

/// Whether an optional MAC holds exactly an optional byte sequence.
pub open spec fn opt_mac_models(m: Option<[u8; 6]>, b: Option<Seq<u8>>) -> bool {
    match (m, b) {
        (Option::None, Option::None) => true,
        (Option::Some(mv), Option::Some(bs)) => mv@ == bs,
        _ => false,
    }
}

/// Whether an exec record holds exactly the values of a model.
pub open spec fn record_models(r: BssRecord, m: BssModel) -> bool {
    &&& opt_str_models(r.ssid, m.ssid)
    &&& opt_mac_models(r.bssid, m.bssid)
    &&& r.freq_mhz == m.freq_mhz
    &&& r.signal_mbm == m.signal_mbm
    &&& r.channel == m.channel
}

/// The record invariant: a channel is present exactly when the frequency
/// maps to a known band, and is derived from it.
pub open spec fn bss_wf(r: BssRecord) -> bool {
    r.channel == (match r.freq_mhz {
        Some(f) => spec_freq_to_channel(f),
        None => None,
    })
}

/// Finds the SSID among the information elements: a second-level
/// sequence of `(id, length, value)` elements, id 0 being the SSID. The
/// value is decoded permissively; a zero-length value (a hidden network)
/// gives an empty SSID. A truncated element ends the search.
pub fn parse_ssid_ie(ies: &[u8]) -> (r: Option<String>)
    ensures
        match r {
            Some(s) => spec_find_ssid_ie(ies@) is Some && s@ == lossy_of(spec_find_ssid_ie(ies@)->0),
            None => spec_find_ssid_ie(ies@) is None,
        },
{
    let n = ies.len();
    let mut i: usize = 0;
    proof {
        assert(ies@.skip(0) =~= ies@);
    }
    while n - i >= 2
        invariant
            i <= n,
            n == ies@.len(),
            spec_find_ssid_ie(ies@) == spec_find_ssid_ie(ies@.skip(i as int)),
        decreases n - i,
    {
        let ghost rem = ies@.skip(i as int);
        let id = ies[i];
        let len = ies[i + 1] as usize;
        proof {
            assert(rem[0] == ies@[i as int] && rem[1] == ies@[i + 1]);
        }
        if len > n - i - 2 {
            return None;
        }
        if id == 0 {
            let val = vstd::slice::slice_subrange(ies, i + 2, i + 2 + len);
            proof {
                assert(val@ =~= rem.subrange(2, 2 + len as int));
            }
            return Some(lossy_string(val));
        }
        proof {
            assert(rem.skip(2 + len as int) =~= ies@.skip(i + 2 + len as int));
        }
        i = i + 2 + len;
    }
    None
}

/// Decodes one nested BSS attribute payload into a record. Every field
/// is optional; malformed or missing attributes degrade to absent
/// fields, never to an error.
pub fn parse_bss(nested: &[u8]) -> (r: BssRecord)
    ensures
        record_models(r, spec_extract(spec_decode(nested@))),
        bss_wf(r),
{
    let attrs = decode_attrs(nested);
    let ghost m = attrs_model(attrs@);
    let n = attrs.len();
    let mut bssid: Option<[u8; 6]> = None;
    let mut freq: Option<u32> = None;
    let mut ssid_ie: Option<String> = None;
    let mut ssid_alt: Option<String> = None;
    let mut sig_mbm: Option<i32> = None;
    let mut sig_unspec: Option<i32> = None;
    let ghost mut g_bssid: Option<Seq<u8>> = None;
    let ghost mut g_ssid_ie: Option<Seq<u8>> = None;
    let ghost mut g_ssid_alt: Option<Seq<u8>> = None;
    let mut i: usize = 0;
    proof {
        assert(m.skip(0) =~= m);
    }
    while i < n
        invariant
            i <= n,
            n == attrs@.len(),
            m == attrs_model(attrs@),
            opt_or(g_bssid, first_bssid(m.skip(i as int))) == first_bssid(m),
            opt_or(freq, first_freq(m.skip(i as int))) == first_freq(m),
            opt_or(g_ssid_ie, first_ssid_ie(m.skip(i as int))) == first_ssid_ie(m),
            opt_or(g_ssid_alt, first_ssid_alt(m.skip(i as int))) == first_ssid_alt(m),
            opt_or(sig_mbm, first_sig_mbm(m.skip(i as int))) == first_sig_mbm(m),
            opt_or(sig_unspec, first_sig_unspec(m.skip(i as int))) == first_sig_unspec(m),
            opt_mac_models(bssid, g_bssid),
            opt_str_models(ssid_ie, g_ssid_ie),
            opt_str_models(ssid_alt, g_ssid_alt),
        decreases n - i,
    {
        let ghost rem = m.skip(i as int);
        let a = &attrs[i];
        proof {
            assert(rem[0] == m[i as int]);
            assert(rem.skip(1) =~= m.skip(i + 1));
            assert(m[i as int] == (AttrModel { typ: a.typ, payload: a.payload@ }));
        }
        if a.typ == ATTR_BSSID {
            if bssid.is_none() && a.payload.len() >= 6 {
                bssid = vec_to_mac(a.payload.as_slice());
                proof {
                    g_bssid = Some(a.payload@.subrange(0, 6));
                }
            }
        } else if a.typ == ATTR_FREQUENCY {
            if freq.is_none() && a.payload.len() >= 4 {
                freq = le_u32(a.payload.as_slice());
            }
        } else if a.typ == ATTR_INFORMATION_ELEMENTS {
            if ssid_ie.is_none() {
                match parse_ssid_ie(a.payload.as_slice()) {
                    Some(s) => {
                        ssid_ie = Some(s);
                        proof {
                            g_ssid_ie = spec_find_ssid_ie(a.payload@);
                        }
                    },
                    None => {},
                }
            }
        } else if a.typ == ATTR_SSID_ALT {
            if ssid_alt.is_none() && a.payload.len() > 0 {
                ssid_alt = Some(lossy_string(a.payload.as_slice()));
                proof {
                    g_ssid_alt = Some(a.payload@);
                }
            }
        } else if a.typ == ATTR_SIGNAL_MBM {
            if sig_mbm.is_none() && a.payload.len() >= 4 {
                match le_u32(a.payload.as_slice()) {
                    Some(v) => {
                        sig_mbm = Some(#[verifier::truncate] (v as i32));
                    },
                    None => {},
                }
            }
        } else if a.typ == ATTR_SIGNAL_UNSPEC {
            if sig_unspec.is_none() && a.payload.len() > 0 {
                let p = a.payload[0];
                sig_unspec = Some(p as i32 * 100 - 10000);
            }
        }
        i = i + 1;
    }
    proof {
        assert(m.skip(n as int) =~= Seq::<AttrModel>::empty());
    }
    let signal_mbm = if sig_mbm.is_some() {
        sig_mbm
    } else {
        sig_unspec
    };
    let ssid = if ssid_ie.is_some() {
        ssid_ie
    } else {
        ssid_alt
    };
    let channel = match freq {
        Some(f) => freq_to_channel(f),
        None => None,
    };
    BssRecord { ssid, bssid, freq_mhz: freq, signal_mbm, channel }
}

} // verus!
