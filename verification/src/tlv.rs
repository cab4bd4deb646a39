//! Attribute decoder: a generic walker over a byte buffer holding a
//! sequence of type-length-value attributes with 4-byte alignment, as a
//! kernel attribute-message carries them.
//!
//! Each entry starts with a little-endian 16-bit total length (header
//! included) and a little-endian 16-bit type tag, followed by the
//! payload. The cursor then advances to the next 4-byte boundary.
//! Malformed trailing bytes (fewer than 4 bytes left, a declared length
//! below 4, or one past the end of the buffer) end decoding early: the
//! entries already parsed are returned and no error is raised.

use vstd::prelude::*;
use vstd::slice::{slice_subrange, slice_to_vec};

verus! {

/// One decoded attribute: a 16-bit type tag and its payload bytes.
pub struct TlvAttr {
    pub typ: u16,
    pub payload: Vec<u8>,
}

/// Mathematical model of one attribute.
#[verifier::ext_equal]
pub ghost struct AttrModel {
    pub typ: u16,
    pub payload: Seq<u8>,
}

/// Little-endian 16-bit value of two bytes.
pub open spec fn spec_le_u16(b0: u8, b1: u8) -> u16 {
    (b0 + b1 * 0x100) as u16
}

/// Little-endian 32-bit value of the first four bytes.
pub open spec fn spec_le_u32(b: Seq<u8>) -> u32
    recommends
        b.len() >= 4,
{
    (b[0] + b[1] * 0x100 + b[2] * 0x10000 + b[3] * 0x1000000) as u32
}

/// A length rounded up to the next multiple of 4, the alignment of the
/// attribute stream.
pub open spec fn spec_pad4(n: int) -> int {
    ((n + 3) / 4) * 4
}

proof fn lemma_pad4_bounds(n: int)
    requires
        n >= 0,
    ensures
        spec_pad4(n) >= n,
        spec_pad4(n) <= n + 3,
{
    assert(spec_pad4(n) >= n && spec_pad4(n) <= n + 3) by (nonlinear_arith);
}

/// The attributes encoded in a buffer: the longest prefix of entries
/// that parse, in order.
pub open spec fn spec_decode(b: Seq<u8>) -> Seq<AttrModel>
    decreases b.len(),
{
    if b.len() < 4 {
        Seq::empty()
    } else {
        let len = spec_le_u16(b[0], b[1]) as int;
        if len < 4 || len > b.len() {
            Seq::empty()
        } else {
            let attr = AttrModel { typ: spec_le_u16(b[2], b[3]), payload: b.subrange(4, len) };
            let adv = spec_pad4(len);
            if adv > b.len() {
                seq![attr]
            } else {
                seq![attr] + spec_decode(b.skip(adv))
            }
        }
    }
}

/// The model of a vector of decoded attributes.
pub open spec fn attrs_model(attrs: Seq<TlvAttr>) -> Seq<AttrModel> {
    attrs.map_values(|a: TlvAttr| AttrModel { typ: a.typ, payload: a.payload@ })
}

/// Reads the first four bytes of a slice as a little-endian 32-bit
/// value; `None` when fewer than four bytes are present.
pub fn le_u32(b: &[u8]) -> (r: Option<u32>)
    ensures
        b@.len() >= 4 ==> r == Some(spec_le_u32(b@)),
        b@.len() < 4 ==> r is None,
{
    if b.len() < 4 {
        return None;
    }
    Some(
        b[0] as u32 + (b[1] as u32) * 0x100 + (b[2] as u32) * 0x10000 + (b[3] as u32) * 0x1000000,
    )
}

/// Reads a little-endian 16-bit value from two bytes.
fn le_u16(b0: u8, b1: u8) -> (r: u16)
    ensures
        r == spec_le_u16(b0, b1),
{
    b0 as u16 + (b1 as u16) * 0x100
}

/// Decodes the whole attribute stream of a buffer. Never reads past the
/// buffer's end; a malformed tail ends decoding early with the entries
/// parsed so far.
pub fn decode_attrs(buf: &[u8]) -> (out: Vec<TlvAttr>)
    ensures
        attrs_model(out@) == spec_decode(buf@),
{
    let n = buf.len();
    let mut out: Vec<TlvAttr> = Vec::new();
    let mut i: usize = 0;
    proof {
        assert(buf@.skip(0) =~= buf@);
        assert(attrs_model(out@) + spec_decode(buf@) =~= spec_decode(buf@));
    }
    loop
        invariant_except_break
            spec_decode(buf@) == attrs_model(out@) + spec_decode(buf@.skip(i as int)),
        invariant
            i <= n,
            n == buf@.len(),
        ensures
            attrs_model(out@) == spec_decode(buf@),
        decreases n - i,
    {
        let ghost rem = buf@.skip(i as int);
        proof {
            assert(rem.len() == n - i);
        }
        if n - i < 4 {
            proof {
                assert(attrs_model(out@) + spec_decode(rem) =~= attrs_model(out@));
            }
            break;
        }
        let len = le_u16(buf[i], buf[i + 1]) as usize;
        proof {
            assert(rem[0] == buf@[i as int] && rem[1] == buf@[i + 1] && rem[2] == buf@[i + 2]
                && rem[3] == buf@[i + 3]);
        }
        if len < 4 || len > n - i {
            proof {
                assert(attrs_model(out@) + spec_decode(rem) =~= attrs_model(out@));
            }
            break;
        }
        let typ = le_u16(buf[i + 2], buf[i + 3]);
        let payload = slice_to_vec(slice_subrange(buf, i + 4, i + len));
        let ghost attr = AttrModel { typ, payload: payload@ };
        proof {
            assert(payload@ =~= rem.subrange(4, len as int));
        }
        out.push(TlvAttr { typ, payload });
        let adv = ((len + 3) / 4) * 4;
        proof {
            lemma_pad4_bounds(len as int);
            assert(adv == spec_pad4(len as int));
            assert(attrs_model(out@) =~= attrs_model(out@.subrange(0, out@.len() - 1)) + seq![attr]);
        }
        if adv > n - i {
            proof {
                assert(spec_decode(rem) == seq![attr]);
                assert(attrs_model(out@) =~= spec_decode(buf@));
            }
            break;
        }
        proof {
            assert(buf@.skip(i as int).skip(adv as int) =~= buf@.skip(i + adv));
            assert(spec_decode(rem) == seq![attr] + spec_decode(buf@.skip(i + adv)));
            assert(attrs_model(out@) + spec_decode(buf@.skip(i + adv)) =~= spec_decode(buf@));
        }
        i = i + adv;
    }
    out
}

/// A well-formed attribute: header plus payload fit the 16-bit length
/// field.
pub open spec fn attr_wf(a: AttrModel) -> bool {
    a.payload.len() + 4 <= 0xFFFF
}

/// The two little-endian bytes of a 16-bit value.
pub open spec fn spec_le16_bytes(n: u16) -> Seq<u8> {
    seq![(n % 0x100) as u8, (n / 0x100) as u8]
}

/// The encoding of one attribute: length, type, payload, zero padding up
/// to the next 4-byte boundary.
pub open spec fn spec_encode_attr(a: AttrModel) -> Seq<u8>
    recommends
        attr_wf(a),
{
    let len = (a.payload.len() + 4) as u16;
    spec_le16_bytes(len) + spec_le16_bytes(a.typ) + a.payload + Seq::new(
        (spec_pad4(len as int) - len as int) as nat,
        |i: int| 0u8,
    )
}

/// The concatenation of the encodings of a sequence of attributes.
pub open spec fn spec_encode_attrs(s: Seq<AttrModel>) -> Seq<u8>
    decreases s.len(),
{
    if s.len() == 0 {
        Seq::empty()
    } else {
        spec_encode_attr(s[0]) + spec_encode_attrs(s.skip(1))
    }
}

/// Decoding a buffer that is a concatenation of well-formed, padded
/// attribute encodings yields exactly those attributes, in order.
pub proof fn lemma_decode_encoded(s: Seq<AttrModel>)
    requires
        forall|i: int| 0 <= i < s.len() ==> attr_wf(#[trigger] s[i]),
    ensures
        spec_decode(spec_encode_attrs(s)) == s,
    decreases s.len(),
{
    if s.len() == 0 {
        assert(spec_decode(spec_encode_attrs(s)) =~= s);
    } else {
        let a = s[0];
        let len: int = a.payload.len() as int + 4;
        lemma_pad4_bounds(len);
        let enc = spec_encode_attr(a);
        assert(enc.len() == spec_pad4(len));
        let rest = spec_encode_attrs(s.skip(1));
        let b = spec_encode_attrs(s);
        assert(b == enc + rest);
        assert(b[0] == (len % 0x100) as u8 && b[1] == (len / 0x100) as u8);
        assert(spec_le_u16(b[0], b[1]) == len);
        assert(b[2] == (a.typ % 0x100) as u8 && b[3] == (a.typ / 0x100) as u8);
        assert(spec_le_u16(b[2], b[3]) == a.typ);
        assert(b.len() == spec_pad4(len) + rest.len());
        assert(b.subrange(4, len as int) =~= a.payload);
        let attr = AttrModel { typ: spec_le_u16(b[2], b[3]), payload: b.subrange(4, len as int) };
        assert(attr =~= a);
        let adv = spec_pad4(len);
        assert(adv <= b.len());
        assert(b.skip(adv) =~= rest);
        lemma_decode_encoded(s.skip(1));
        assert(spec_decode(b) == seq![attr] + s.skip(1));
        assert(seq![attr] + s.skip(1) =~= s);
    }
}

} // verus!
