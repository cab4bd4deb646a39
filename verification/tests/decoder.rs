use wifi_backend::tlv::{decode_attrs, le_u32};

/// One encoded attribute: little-endian length and type, payload, zero
/// padding to the next 4-byte boundary.
fn enc(typ: u16, payload: &[u8]) -> Vec<u8> {
    let len = (payload.len() + 4) as u16;
    let mut out = Vec::new();
    out.extend_from_slice(&len.to_le_bytes());
    out.extend_from_slice(&typ.to_le_bytes());
    out.extend_from_slice(payload);
    while out.len() % 4 != 0 {
        out.push(0);
    }
    out
}

#[test]
fn decodes_concatenation_in_order() {
    let mut buf = Vec::new();
    buf.extend_from_slice(&enc(1, &[0xaa, 0xbb, 0xcc, 0xdd, 0xee, 0xff]));
    buf.extend_from_slice(&enc(2, &[0x85, 0x09, 0x00, 0x00]));
    buf.extend_from_slice(&enc(7, &[42]));
    let attrs = decode_attrs(&buf);
    assert_eq!(attrs.len(), 3);
    assert_eq!(attrs[0].typ, 1);
    assert_eq!(attrs[0].payload, vec![0xaa, 0xbb, 0xcc, 0xdd, 0xee, 0xff]);
    assert_eq!(attrs[1].typ, 2);
    assert_eq!(attrs[1].payload, vec![0x85, 0x09, 0x00, 0x00]);
    assert_eq!(attrs[2].typ, 7);
    assert_eq!(attrs[2].payload, vec![42]);
}

#[test]
fn empty_and_short_buffers_yield_nothing() {
    assert_eq!(decode_attrs(&[]).len(), 0);
    assert_eq!(decode_attrs(&[4, 0]).len(), 0);
    assert_eq!(decode_attrs(&[4, 0, 1]).len(), 0);
}

#[test]
fn declared_length_below_header_stops() {
    // length 3 < 4: nothing parses
    assert_eq!(decode_attrs(&[3, 0, 1, 0, 9, 9, 9, 9]).len(), 0);
}

#[test]
fn declared_length_past_end_stops() {
    // length 40 > 8 available
    assert_eq!(decode_attrs(&[40, 0, 1, 0, 9, 9, 9, 9]).len(), 0);
}

#[test]
fn malformed_tail_keeps_parsed_prefix() {
    let mut buf = enc(5, &[1, 2, 3, 4]);
    buf.extend_from_slice(&[0xff, 0xff, 0x01]); // garbage tail, under 4 bytes
    let attrs = decode_attrs(&buf);
    assert_eq!(attrs.len(), 1);
    assert_eq!(attrs[0].typ, 5);
    assert_eq!(attrs[0].payload, vec![1, 2, 3, 4]);
}

#[test]
fn truncated_padding_still_yields_entry() {
    // length 5 (one payload byte), no padding bytes present
    let buf = [5u8, 0, 9, 0, 0x7f];
    let attrs = decode_attrs(&buf);
    assert_eq!(attrs.len(), 1);
    assert_eq!(attrs[0].typ, 9);
    assert_eq!(attrs[0].payload, vec![0x7f]);
}

#[test]
fn zero_length_payload_entry() {
    let buf = enc(3, &[]);
    let attrs = decode_attrs(&buf);
    assert_eq!(attrs.len(), 1);
    assert_eq!(attrs[0].typ, 3);
    assert_eq!(attrs[0].payload.len(), 0);
}

#[test]
fn le_u32_reads_first_four_bytes() {
    assert_eq!(le_u32(&[0x85, 0x09, 0x00, 0x00]), Some(2437));
    assert_eq!(le_u32(&[0xff, 0xff, 0xff, 0xff, 1, 2]), Some(u32::MAX));
    assert_eq!(le_u32(&[1, 2, 3]), None);
    assert_eq!(le_u32(&[]), None);
}
