use chainhead_rpc::follow_event::RuntimeSpec;
use chainhead_rpc::hashmap_as_tuple_list;
use chainhead_rpc::json::{required_value, Decode, DecodeError, JsonValue};
use chainhead_rpc::unsigned_number_as_string;

fn text(s: &str) -> JsonValue {
    JsonValue::String(s.to_string())
}

fn object(entries: Vec<(&str, JsonValue)>) -> JsonValue {
    JsonValue::Object(entries.into_iter().map(|(k, v)| (k.to_string(), v)).collect())
}

fn pair(key: &str, version: u128) -> JsonValue {
    JsonValue::Array(vec![text(key), JsonValue::Unsigned(version)])
}

fn num_u64(v: &JsonValue) -> Result<u64, DecodeError> {
    unsigned_number_as_string::deserialize::<u64>(required_value(v, "num")?)
}

fn num_u128(v: &JsonValue) -> Result<u128, DecodeError> {
    unsigned_number_as_string::deserialize::<u128>(required_value(v, "num")?)
}

#[test]
fn can_deserialize_apis_from_tuple_or_object() {
    let old_response = object(vec![
        ("authoringVersion", JsonValue::Unsigned(10)),
        ("specName", text("westend")),
        ("implName", text("parity-westend")),
        ("specVersion", JsonValue::Unsigned(9122)),
        ("implVersion", JsonValue::Unsigned(0)),
        ("stateVersion", JsonValue::Unsigned(1)),
        ("transactionVersion", JsonValue::Unsigned(7)),
        (
            "apis",
            JsonValue::Array(vec![
                pair("0xdf6acb689907609b", 3),
                pair("0x37e397fc7c91f5e4", 1),
                pair("0x40fe3ad401f8959a", 5),
                pair("0xd2bc9897eed08f15", 3),
                pair("0xf78b278be53f454c", 2),
                pair("0xaf2c0297a23e6d3d", 1),
                pair("0x49eaaf1b548a0cb0", 1),
                pair("0x91d5df18b0d2cf58", 1),
                pair("0xed99c5acb25eedf5", 3),
                pair("0xcbca25e39f142387", 2),
                pair("0x687ad44ad37f03c2", 1),
                pair("0xab3c0572291feb8b", 1),
                pair("0xbc9d89904f5b923f", 1),
                pair("0x37c8bb1350a9a2a8", 1),
            ]),
        ),
    ]);
    let old_spec = RuntimeSpec::decode(&old_response).unwrap();

    let new_response = object(vec![
        ("specName", text("westend")),
        ("implName", text("parity-westend")),
        ("specVersion", JsonValue::Unsigned(9122)),
        ("implVersion", JsonValue::Unsigned(0)),
        ("transactionVersion", JsonValue::Unsigned(7)),
        (
            "apis",
            object(vec![
                ("0xdf6acb689907609b", JsonValue::Unsigned(3)),
                ("0x37e397fc7c91f5e4", JsonValue::Unsigned(1)),
                ("0x40fe3ad401f8959a", JsonValue::Unsigned(5)),
                ("0xd2bc9897eed08f15", JsonValue::Unsigned(3)),
                ("0xf78b278be53f454c", JsonValue::Unsigned(2)),
                ("0xaf2c0297a23e6d3d", JsonValue::Unsigned(1)),
                ("0x49eaaf1b548a0cb0", JsonValue::Unsigned(1)),
                ("0x91d5df18b0d2cf58", JsonValue::Unsigned(1)),
                ("0xed99c5acb25eedf5", JsonValue::Unsigned(3)),
                ("0xcbca25e39f142387", JsonValue::Unsigned(2)),
                ("0x687ad44ad37f03c2", JsonValue::Unsigned(1)),
                ("0xab3c0572291feb8b", JsonValue::Unsigned(1)),
                ("0xbc9d89904f5b923f", JsonValue::Unsigned(1)),
                ("0x37c8bb1350a9a2a8", JsonValue::Unsigned(1)),
            ]),
        ),
    ]);
    let new_spec = RuntimeSpec::decode(&new_response).unwrap();

    assert_eq!(old_spec, new_spec);
}

#[test]
fn can_deserialize_from_number_or_string() {
    let from_string = object(vec![("num", text("123"))]);
    let from_num = object(vec![("num", JsonValue::Unsigned(123))]);
    let from_err = object(vec![("num", text("123a"))]);

    let f1 = num_u64(&from_string).expect("can deser string into u64");
    let f2 = num_u128(&from_string).expect("can deser string into u32");
    let f3 = num_u64(&from_num).expect("can deser num into u64");
    let f4 = num_u128(&from_num).expect("can deser num into u32");

    assert_eq!(f1, 123);
    assert_eq!(f2, 123);
    assert_eq!(f3, 123);
    assert_eq!(f4, 123);

    // Invalid things should lead to an error:
    let _ = num_u128(&from_err).expect_err("can't deser invalid num into u32");
}

#[test]
fn runtime_spec_holds_the_decoded_fields() {
    let response = object(vec![
        ("specName", text("westend")),
        ("implName", text("parity-westend")),
        ("specVersion", JsonValue::Unsigned(9122)),
        ("implVersion", JsonValue::Unsigned(0)),
        ("transactionVersion", JsonValue::Unsigned(7)),
        ("apis", JsonValue::Array(vec![pair("0xdf6acb689907609b", 3), pair("0x37e397fc7c91f5e4", 1)])),
    ]);
    let spec = RuntimeSpec::decode(&response).unwrap();
    assert_eq!(spec.spec_name, "westend");
    assert_eq!(spec.impl_name, "parity-westend");
    assert_eq!(spec.spec_version, 9122);
    assert_eq!(spec.impl_version, 0);
    assert_eq!(spec.transaction_version, 7);
    assert_eq!(spec.apis.len(), 2);
    assert_eq!(spec.apis.get("0xdf6acb689907609b"), Some(3));
    assert_eq!(spec.apis.get("0x37e397fc7c91f5e4"), Some(1));
    assert_eq!(spec.apis.get("0x0000000000000000"), None);
}

#[test]
fn apis_in_another_order_are_the_same_mapping() {
    let a = hashmap_as_tuple_list::deserialize(&JsonValue::Array(vec![pair("a", 1), pair("b", 2)])).unwrap();
    let b = hashmap_as_tuple_list::deserialize(&object(vec![
        ("b", JsonValue::Unsigned(2)),
        ("a", JsonValue::Unsigned(1)),
    ]))
    .unwrap();
    assert_eq!(a, b);
    let c = hashmap_as_tuple_list::deserialize(&JsonValue::Array(vec![pair("a", 1), pair("b", 3)])).unwrap();
    assert_ne!(a, c);
    let d = hashmap_as_tuple_list::deserialize(&JsonValue::Array(vec![pair("a", 1)])).unwrap();
    assert_ne!(a, d);
    assert_ne!(d, a);
}

#[test]
fn a_later_pair_replaces_an_earlier_one() {
    let map = hashmap_as_tuple_list::deserialize(&JsonValue::Array(vec![
        pair("a", 1),
        pair("b", 2),
        pair("a", 9),
    ]))
    .unwrap();
    assert_eq!(map.len(), 2);
    assert_eq!(map.get("a"), Some(9));
    assert_eq!(map.get("b"), Some(2));
    assert!(map.contains_key("a"));
    assert!(!map.contains_key("c"));
    assert_eq!(map.clone(), map);
    let mut keys = map.keys();
    keys.sort();
    assert_eq!(keys, vec!["a".to_string(), "b".to_string()]);
}

#[test]
fn api_map_insert_replaces() {
    let mut map = chainhead_rpc::api_map::ApiMap::new();
    assert_eq!(map.len(), 0);
    assert_eq!(map.get("a"), None);
    map.insert("a".to_string(), 1);
    map.insert("b".to_string(), 2);
    assert_eq!(map.len(), 2);
    map.insert("a".to_string(), 3);
    assert_eq!(map.len(), 2);
    assert_eq!(map.get("a"), Some(3));
    assert_eq!(map.get("b"), Some(2));
    let mut other = chainhead_rpc::api_map::ApiMap::new();
    other.insert("b".to_string(), 2);
    assert_ne!(map, other);
    other.insert("a".to_string(), 3);
    assert_eq!(map, other);
}

#[test]
fn apis_of_another_shape_are_refused() {
    assert!(hashmap_as_tuple_list::deserialize(&JsonValue::Null).is_err());
    assert!(hashmap_as_tuple_list::deserialize(&text("0xabc")).is_err());
    // A pair of three items, a pair with a key that is no string, a version
    // that does not fit.
    let three = JsonValue::Array(vec![JsonValue::Array(vec![
        text("a"),
        JsonValue::Unsigned(1),
        JsonValue::Unsigned(2),
    ])]);
    assert!(hashmap_as_tuple_list::deserialize(&three).is_err());
    let no_key = JsonValue::Array(vec![JsonValue::Array(vec![
        JsonValue::Unsigned(1),
        JsonValue::Unsigned(2),
    ])]);
    assert!(hashmap_as_tuple_list::deserialize(&no_key).is_err());
    let too_big = JsonValue::Array(vec![pair("a", 4294967296)]);
    assert!(hashmap_as_tuple_list::deserialize(&too_big).is_err());
    let fits = JsonValue::Array(vec![pair("a", 4294967295)]);
    assert_eq!(hashmap_as_tuple_list::deserialize(&fits).unwrap().get("a"), Some(4294967295));
    let negative = object(vec![("a", JsonValue::Negative(-1))]);
    assert!(hashmap_as_tuple_list::deserialize(&negative).is_err());
    assert!(hashmap_as_tuple_list::deserialize(&object(vec![])).unwrap().len() == 0);
}

#[test]
fn number_and_its_decimal_string_agree() {
    for n in [0u64, 7, 10, 12, 1234567890, u64::MAX] {
        let from_num =
            unsigned_number_as_string::deserialize::<u64>(&JsonValue::Unsigned(n as u128));
        let from_text = unsigned_number_as_string::deserialize::<u64>(&text(&n.to_string()));
        assert_eq!(from_num, Ok(n));
        assert_eq!(from_text, Ok(n));
        let wide_num =
            unsigned_number_as_string::deserialize::<u128>(&JsonValue::Unsigned(n as u128));
        let wide_text = unsigned_number_as_string::deserialize::<u128>(&text(&n.to_string()));
        assert_eq!(wide_num, Ok(n as u128));
        assert_eq!(wide_text, Ok(n as u128));
    }
}

#[test]
fn text_that_is_no_number_is_refused() {
    assert_eq!(unsigned_number_as_string::parse::<u64>("12a"), None);
    assert_eq!(unsigned_number_as_string::parse::<u64>(""), None);
    assert_eq!(unsigned_number_as_string::parse::<u64>("+12"), None);
    assert_eq!(unsigned_number_as_string::parse::<u64>("+123"), None);
    assert_eq!(unsigned_number_as_string::parse::<u64>("-12"), None);
    assert_eq!(unsigned_number_as_string::parse::<u64>("-1"), None);
    assert_eq!(unsigned_number_as_string::parse::<u64>(" 12"), None);
    assert_eq!(unsigned_number_as_string::parse::<u64>("1.5"), None);
    assert_eq!(unsigned_number_as_string::parse::<u64>("1.0"), None);
    assert_eq!(unsigned_number_as_string::parse::<u64>("١٢"), None);
    assert_eq!(unsigned_number_as_string::parse::<u128>("12a"), None);
    assert_eq!(unsigned_number_as_string::parse::<u128>(""), None);
    assert_eq!(unsigned_number_as_string::parse::<u64>("007"), Some(7));
    assert_eq!(unsigned_number_as_string::parse::<u64>("0"), Some(0));
    assert_eq!(
        unsigned_number_as_string::deserialize::<u64>(&JsonValue::Negative(-3)),
        Err(DecodeError)
    );
    assert_eq!(unsigned_number_as_string::deserialize::<u64>(&JsonValue::Real), Err(DecodeError));
    assert_eq!(unsigned_number_as_string::deserialize::<u64>(&JsonValue::Null), Err(DecodeError));
    assert_eq!(
        unsigned_number_as_string::deserialize::<u128>(&JsonValue::Array(vec![])),
        Err(DecodeError)
    );
}

#[test]
fn only_overflow_of_the_target_width_is_refused() {
    // Above `u64::MAX`: too much for `u64`, read into `u128`.
    assert_eq!(unsigned_number_as_string::parse::<u64>("18446744073709551615"), Some(u64::MAX));
    assert_eq!(unsigned_number_as_string::parse::<u64>("18446744073709551616"), None);
    assert_eq!(
        unsigned_number_as_string::deserialize::<u64>(&text("18446744073709551616")),
        Err(DecodeError)
    );
    assert_eq!(
        unsigned_number_as_string::deserialize::<u128>(&text("18446744073709551616")),
        Ok(18446744073709551616u128)
    );
    assert_eq!(
        unsigned_number_as_string::parse::<u128>("340282366920938463463374607431768211455"),
        Some(u128::MAX)
    );
    assert_eq!(
        unsigned_number_as_string::parse::<u128>("340282366920938463463374607431768211456"),
        None
    );
    assert_eq!(
        unsigned_number_as_string::parse::<u128>("0000340282366920938463463374607431768211455"),
        Some(u128::MAX)
    );
    assert_eq!(
        unsigned_number_as_string::parse::<u128>("99999999999999999999999999999999999999999999"),
        None
    );
    // Narrower targets.
    assert_eq!(unsigned_number_as_string::parse::<u8>("255"), Some(255));
    assert_eq!(unsigned_number_as_string::parse::<u8>("256"), None);
    assert_eq!(unsigned_number_as_string::parse::<u16>("65535"), Some(65535));
    assert_eq!(unsigned_number_as_string::parse::<u16>("65536"), None);
    assert_eq!(unsigned_number_as_string::parse::<u32>("4294967295"), Some(u32::MAX));
    assert_eq!(unsigned_number_as_string::parse::<u32>("4294967296"), None);
    assert_eq!(unsigned_number_as_string::parse::<usize>("42"), Some(42));
    assert_eq!(
        unsigned_number_as_string::deserialize::<u32>(&JsonValue::Unsigned(4294967295)),
        Ok(u32::MAX)
    );
    assert_eq!(
        unsigned_number_as_string::deserialize::<u32>(&JsonValue::Unsigned(4294967296)),
        Err(DecodeError)
    );
    assert_eq!(unsigned_number_as_string::deserialize::<u8>(&JsonValue::Unsigned(256)), Err(DecodeError));
    // A number above `u64::MAX`, sent as a number.
    assert_eq!(
        unsigned_number_as_string::deserialize::<u128>(&JsonValue::Unsigned(18446744073709551616)),
        Ok(18446744073709551616u128)
    );
    assert_eq!(
        unsigned_number_as_string::deserialize::<u64>(&JsonValue::Unsigned(18446744073709551616)),
        Err(DecodeError)
    );
    assert_eq!(
        unsigned_number_as_string::deserialize::<u64>(&JsonValue::Unsigned(18446744073709551615)),
        Ok(u64::MAX)
    );
}
