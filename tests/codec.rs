use ebus::codec::{encode, encode_with_crc, unescape, Unescaped};
use ebus::Crc;

fn decode_all(wire: &[u8]) -> Option<Vec<u8>> {
    let mut out = vec![];
    let mut pending = false;
    for &w in wire {
        match unescape(pending, w) {
            Unescaped::Byte(b) => {
                out.push(b);
                pending = false;
            }
            Unescaped::Prefix => pending = true,
            Unescaped::Invalid => return None,
        }
    }
    if pending {
        None
    } else {
        Some(out)
    }
}

#[test]
fn escape_sync_symbol() {
    let mut out = vec![];
    encode(&mut out, &[0xAA]);
    assert_eq!(out, vec![0xA9, 0x01]);
}

#[test]
fn escape_escape_symbol() {
    let mut out = vec![];
    encode(&mut out, &[0xA9]);
    assert_eq!(out, vec![0xA9, 0x00]);
}

#[test]
fn escape_leaves_plain_bytes() {
    let mut out = vec![0x11];
    encode(&mut out, &[0x01, 0x00, 0xAB, 0xFF]);
    assert_eq!(out, vec![0x11, 0x01, 0x00, 0xAB, 0xFF]);
}

#[test]
fn escape_mixed_run() {
    let mut out = vec![];
    encode(&mut out, &[0xAA, 0x05, 0xA9, 0xA9, 0x06, 0xAA]);
    assert_eq!(
        out,
        vec![0xA9, 0x01, 0x05, 0xA9, 0x00, 0xA9, 0x00, 0x06, 0xA9, 0x01]
    );
}

#[test]
fn escape_round_trip() {
    let input = [0xAA, 0x05, 0xA9, 0xA9, 0x06, 0xAA, 0x00, 0x01];
    let mut wire = vec![];
    encode(&mut wire, &input);
    assert_eq!(decode_all(&wire), Some(input.to_vec()));
}

#[test]
fn invalid_escape_code() {
    assert_eq!(unescape(true, 0x02), Unescaped::Invalid);
    assert_eq!(unescape(true, 0x00), Unescaped::Byte(0xA9));
    assert_eq!(unescape(true, 0x01), Unescaped::Byte(0xAA));
    assert_eq!(unescape(false, 0xA9), Unescaped::Prefix);
    assert_eq!(unescape(false, 0x01), Unescaped::Byte(0x01));
}

#[test]
fn checksum_covers_escape_sequences() {
    let mut wire = vec![];
    let mut crc = Crc::new(0x9B);
    encode_with_crc(&mut wire, &[0x02, 0xA9, 0xDA], &mut crc);
    assert_eq!(wire, vec![0x02, 0xA9, 0x00, 0xDA]);
    assert_eq!(crc.calc_crc(), 0x82);

    let mut plain = Crc::new(0x9B);
    plain.add_encoded(&[0x02, 0xA9, 0xDA]);
    assert_eq!(plain.calc_crc(), 0x82);
}
