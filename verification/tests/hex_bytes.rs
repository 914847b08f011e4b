use chainhead_rpc::bytes::{from_hex, to_hex, Bytes};
use chainhead_rpc::json::{Decode, DecodeError, Encode, JsonValue};
use chainhead_rpc::wire::decode_nullable;
use std::cmp::Ordering;
use std::collections::BTreeSet;

#[test]
fn to_hex_writes_prefix_and_lower_case_digits() {
    assert_eq!(to_hex(&[0x0a, 0xff]), "0x0aff");
    assert_eq!(to_hex(&[]), "0x");
    assert_eq!(to_hex(&[0x00]), "0x00");
    assert_eq!(to_hex(&[0xde, 0xad, 0xbe, 0xef, 0x01]), "0xdeadbeef01");
}

#[test]
fn hex_decode_round_trips() {
    assert_eq!(from_hex("0x0aff"), Ok(vec![0x0a, 0xff]));
    for bytes in [vec![], vec![0u8], vec![0x0a, 0xff], (0u8..=255).collect::<Vec<u8>>()] {
        assert_eq!(from_hex(&to_hex(&bytes)), Ok(bytes));
    }
}

#[test]
fn hex_decode_takes_both_cases_and_odd_lengths() {
    assert_eq!(from_hex("0x0AFf"), Ok(vec![0x0a, 0xff]));
    assert_eq!(from_hex("0aff"), Ok(vec![0x0a, 0xff]));
    assert_eq!(from_hex(""), Ok(vec![]));
    assert_eq!(from_hex("0x"), Ok(vec![]));
    assert_eq!(from_hex("0x1"), Ok(vec![0x01]));
    assert_eq!(from_hex("0x123"), Ok(vec![0x01, 0x23]));
    assert_eq!(from_hex("12345"), Ok(vec![0x01, 0x23, 0x45]));
}

#[test]
fn hex_decode_refuses_other_characters() {
    assert_eq!(from_hex("0x0g"), Err(DecodeError));
    assert_eq!(from_hex("0X0a"), Err(DecodeError));
    assert_eq!(from_hex("0x0x0a"), Err(DecodeError));
    assert_eq!(from_hex("zz"), Err(DecodeError));
    assert_eq!(from_hex("0xé0"), Err(DecodeError));
    assert_eq!(from_hex("0x-1"), Err(DecodeError));
}

#[test]
fn hex_decode_passes_over_blanks() {
    assert!(from_hex("0x0a ff").is_ok());
    assert!(from_hex("0a\tff\r\n").is_ok());
    assert_eq!(from_hex("0x0a f!"), Err(DecodeError));
}

#[test]
fn bytes_wire_form_is_hex_text() {
    let bytes = Bytes::from(vec![0x0a, 0xff]);
    assert_eq!(bytes.encode(), JsonValue::String("0x0aff".to_string()));
    assert_eq!(Bytes::decode(&bytes.encode()), Ok(Bytes(vec![0x0a, 0xff])));
    assert_eq!(Bytes(vec![]).encode(), JsonValue::String("0x".to_string()));
    assert_eq!(Bytes::decode(&JsonValue::String("0x".to_string())), Ok(Bytes(vec![])));
    assert_eq!(Bytes::decode(&JsonValue::Unsigned(10)), Err(DecodeError));
    assert_eq!(Bytes::decode(&JsonValue::Array(vec![JsonValue::Unsigned(10)])), Err(DecodeError));
    assert_eq!(Bytes::decode(&JsonValue::String("0xzz".to_string())), Err(DecodeError));
    assert_eq!(&*bytes, &[0x0a, 0xff][..]);
    assert_eq!(bytes.len(), 2);
}

#[test]
fn header_reply_is_hex_or_null() {
    assert_eq!(decode_nullable::<Bytes>(&JsonValue::Null), Ok(None));
    assert_eq!(
        decode_nullable::<Bytes>(&JsonValue::String("0x0102".to_string())),
        Ok(Some(Bytes(vec![1, 2])))
    );
    assert_eq!(decode_nullable::<Bytes>(&JsonValue::Bool(true)), Err(DecodeError));
}

#[test]
fn bytes_are_ordered_as_their_raw_bytes() {
    let b = |v: &[u8]| Bytes(v.to_vec());
    assert!(b(&[]) < b(&[0]));
    assert!(b(&[0]) < b(&[0, 0]));
    assert!(b(&[0, 255]) < b(&[1]));
    assert!(b(&[1, 2, 3]) < b(&[1, 2, 4]));
    assert!(b(&[2]) > b(&[1, 255, 255]));
    assert!(b(&[1, 2]) <= b(&[1, 2]));
    assert!(b(&[1, 2]) >= b(&[1, 2]));
    assert!(b(&[1, 2]) == b(&[1, 2]));
    assert!(b(&[1, 2]) != b(&[1, 3]));
    assert!(b(&[1, 2]) != b(&[1, 2, 0]));
    assert_eq!(b(&[1]).partial_cmp(&b(&[1])), Some(Ordering::Equal));
    assert_eq!(b(&[1]).partial_cmp(&b(&[2])), Some(Ordering::Less));
    assert_eq!(b(&[3]).partial_cmp(&b(&[2, 9])), Some(Ordering::Greater));
    // The order by hand and the order that sorting uses are one order.
    let samples = [b(&[]), b(&[0]), b(&[0, 0]), b(&[0, 255]), b(&[1]), b(&[1, 2, 3]), b(&[255])];
    for x in samples.iter() {
        for y in samples.iter() {
            assert_eq!(x.partial_cmp(y), Some(x.cmp(y)));
            assert_eq!(x.partial_cmp(y), Some(x.0.cmp(&y.0)));
            assert_eq!(x == y, x.0 == y.0);
        }
    }
    let set: BTreeSet<Bytes> = samples.iter().cloned().rev().collect();
    let sorted: Vec<Bytes> = set.into_iter().collect();
    assert_eq!(sorted, samples.to_vec());
}
