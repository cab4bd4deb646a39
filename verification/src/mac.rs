//! MAC (BSSID) handling: extraction from raw bytes, equality, the
//! same-physical-device heuristic, and lowercase colon-separated hex
//! formatting.

use vstd::prelude::*;

verus! {

/// Lowercase hex digit for a value below 16.
pub open spec fn spec_hex_digit(n: u8) -> char
    recommends
        n < 16,
{
    if n == 0 {
        '0'
    } else if n == 1 {
        '1'
    } else if n == 2 {
        '2'
    } else if n == 3 {
        '3'
    } else if n == 4 {
        '4'
    } else if n == 5 {
        '5'
    } else if n == 6 {
        '6'
    } else if n == 7 {
        '7'
    } else if n == 8 {
        '8'
    } else if n == 9 {
        '9'
    } else if n == 10 {
        'a'
    } else if n == 11 {
        'b'
    } else if n == 12 {
        'c'
    } else if n == 13 {
        'd'
    } else if n == 14 {
        'e'
    } else {
        'f'
    }
}

/// Two lowercase hex digits of one byte.
pub open spec fn spec_byte_hex(b: u8) -> Seq<char> {
    seq![spec_hex_digit(b / 16), spec_hex_digit(b % 16)]
}

/// The canonical text form of a 6-byte MAC: lowercase hex pairs joined
/// by colons.
pub open spec fn spec_mac_chars(m: Seq<u8>) -> Seq<char>
    recommends
        m.len() == 6,
{
    spec_byte_hex(m[0]) + seq![':'] + spec_byte_hex(m[1]) + seq![':'] + spec_byte_hex(m[2])
        + seq![':'] + spec_byte_hex(m[3]) + seq![':'] + spec_byte_hex(m[4]) + seq![':']
        + spec_byte_hex(m[5])
}

/// Two BSSIDs are judged to belong to the same physical device when the
/// four middle bytes (positions 1 through 4) match.
pub open spec fn spec_same_device(a: Seq<u8>, b: Seq<u8>) -> bool
    recommends
        a.len() == 6,
        b.len() == 6,
{
    a[1] == b[1] && a[2] == b[2] && a[3] == b[3] && a[4] == b[4]
}

/// Takes the first 6 bytes of a slice as a MAC; `None` when the slice is
/// shorter than 6 bytes.
pub fn vec_to_mac(v: &[u8]) -> (r: Option<[u8; 6]>)
    ensures
        match r {
            Some(m) => v@.len() >= 6 && m@ == v@.subrange(0, 6),
            None => v@.len() < 6,
        },
{
    if v.len() < 6 {
        return None;
    }
    let m: [u8; 6] = [v[0], v[1], v[2], v[3], v[4], v[5]];
    proof {
        assert(m@ =~= v@.subrange(0, 6));
    }
    Some(m)
}

/// Byte-wise equality of two MACs.
pub fn mac_eq(a: &[u8; 6], b: &[u8; 6]) -> (r: bool)
    ensures
        r == (a@ == b@),
{
    let r = a[0] == b[0] && a[1] == b[1] && a[2] == b[2] && a[3] == b[3] && a[4] == b[4] && a[5]
        == b[5];
    proof {
        if r {
            assert(a@ =~= b@);
        }
    }
    r
}

/// Heuristic: two BSSIDs likely belong to one physical device when bytes
/// 1 through 4 match (multi-radio access points commonly vary only the
/// first and last byte across their radios).
pub fn same_device(a: &[u8; 6], b: &[u8; 6]) -> (r: bool)
    ensures
        r == spec_same_device(a@, b@),
{
    a[1] == b[1] && a[2] == b[2] && a[3] == b[3] && a[4] == b[4]
}

/// One lowercase hex digit as a string slice.
fn hex_digit_str(n: u8) -> (r: &'static str)
    requires
        n < 16,
    ensures
        r@ == seq![spec_hex_digit(n)],
{
    proof {
        reveal_strlit("0");
        reveal_strlit("1");
        reveal_strlit("2");
        reveal_strlit("3");
        reveal_strlit("4");
        reveal_strlit("5");
        reveal_strlit("6");
        reveal_strlit("7");
        reveal_strlit("8");
        reveal_strlit("9");
        reveal_strlit("a");
        reveal_strlit("b");
        reveal_strlit("c");
        reveal_strlit("d");
        reveal_strlit("e");
        reveal_strlit("f");
    }
    match n {
        0 => "0",
        1 => "1",
        2 => "2",
        3 => "3",
        4 => "4",
        5 => "5",
        6 => "6",
        7 => "7",
        8 => "8",
        9 => "9",
        10 => "a",
        11 => "b",
        12 => "c",
        13 => "d",
        14 => "e",
        _ => "f",
    }
}

/// Appends the two hex digits of one byte.
fn append_byte_hex(s: &mut String, b: u8)
    ensures
        final(s)@ == old(s)@ + spec_byte_hex(b),
{
    s.append(hex_digit_str(b / 16));
    s.append(hex_digit_str(b % 16));
    proof {
        assert(s@ =~= old(s)@ + spec_byte_hex(b));
    }
}

/// Formats a 6-byte MAC as lowercase colon-separated hex, such as
/// `aa:bb:cc:dd:ee:ff`.
pub fn format_mac(bytes: &[u8; 6]) -> (s: String)
    ensures
        s@ == spec_mac_chars(bytes@),
{
    proof {
        reveal_strlit(":");
    }
    let mut s = String::new();
    append_byte_hex(&mut s, bytes[0]);
    s.append(":");
    append_byte_hex(&mut s, bytes[1]);
    s.append(":");
    append_byte_hex(&mut s, bytes[2]);
    s.append(":");
    append_byte_hex(&mut s, bytes[3]);
    s.append(":");
    append_byte_hex(&mut s, bytes[4]);
    s.append(":");
    append_byte_hex(&mut s, bytes[5]);
    proof {
        assert(s@ =~= spec_mac_chars(bytes@));
    }
    s
}

} // verus!
