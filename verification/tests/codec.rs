use order_pipeline::msgpack::{decode_action, encode_action};
use order_pipeline::order::{Action, Grouping, OrderDescription, OrderKind, Tif};

fn sample_order(cloid: Option<u128>) -> OrderDescription {
    OrderDescription::new(
        1,
        true,
        false,
        b"2000".to_vec(),
        b"0.01".to_vec(),
        cloid,
        OrderKind::Limit { tif: Tif::Ioc },
        4,
    )
    .unwrap()
}

#[test]
fn canonical_bytes_match_wire_format() {
    let action = Action {
        orders: vec![sample_order(None)],
        grouping: Grouping::Na,
        builder: None,
    };
    let bytes = encode_action(&action);
    // Hand-assembled from the compact tagged-map format: a three-entry map
    // {"type":"order","orders":[<order>],"grouping":"na"} whose order is a
    // six-entry map of short field names.
    let mut expected: Vec<u8> = Vec::new();
    expected.push(0x83);
    expected.extend_from_slice(&[0xa4, b't', b'y', b'p', b'e']);
    expected.extend_from_slice(&[0xa5, b'o', b'r', b'd', b'e', b'r']);
    expected.extend_from_slice(&[0xa6, b'o', b'r', b'd', b'e', b'r', b's']);
    expected.push(0x91);
    expected.push(0x86);
    expected.extend_from_slice(&[0xa1, b'a', 0x01]);
    expected.extend_from_slice(&[0xa1, b'b', 0xc3]);
    expected.extend_from_slice(&[0xa1, b'p', 0xa4, b'2', b'0', b'0', b'0']);
    expected.extend_from_slice(&[0xa1, b's', 0xa4, b'0', b'.', b'0', b'1']);
    expected.extend_from_slice(&[0xa1, b'r', 0xc2]);
    expected.extend_from_slice(&[0xa1, b't', 0x81, 0xa5, b'l', b'i', b'm', b'i', b't']);
    expected.extend_from_slice(&[0x81, 0xa3, b't', b'i', b'f', 0xa3, b'I', b'o', b'c']);
    expected.extend_from_slice(&[0xa8, b'g', b'r', b'o', b'u', b'p', b'i', b'n', b'g']);
    expected.extend_from_slice(&[0xa2, b'n', b'a']);
    assert_eq!(bytes, expected);
}

#[test]
fn canonical_bytes_agree_with_reference_encoder() {
    // The order-type object is a single-key map at every level, so its
    // reference encoding is unambiguous; it must appear verbatim inside the
    // action's canonical bytes.
    let mut inner = serde_json::Map::new();
    inner.insert("tif".to_string(), serde_json::Value::from("Ioc"));
    let mut obj = serde_json::Map::new();
    obj.insert("limit".to_string(), serde_json::Value::Object(inner));
    let gold = rmp_serde::to_vec_named(&serde_json::Value::Object(obj)).unwrap();

    let action = Action {
        orders: vec![sample_order(None)],
        grouping: Grouping::Na,
        builder: None,
    };
    let bytes = encode_action(&action);
    let found = bytes.windows(gold.len()).any(|w| w == gold.as_slice());
    assert!(found, "reference encoding of the order-type object not found");
}

#[test]
fn decode_returns_the_encoded_order() {
    let action = Action {
        orders: vec![sample_order(Some(0x0123456789abcdef0123456789abcdefu128))],
        grouping: Grouping::Na,
        builder: None,
    };
    let bytes = encode_action(&action);
    let back = decode_action(&bytes).expect("canonical bytes must decode");
    assert_eq!(back.orders.len(), 1);
    let o = &back.orders[0];
    assert_eq!(o.asset, 1);
    assert!(o.is_buy);
    assert!(!o.reduce_only);
    assert_eq!(o.limit_px, b"2000".to_vec());
    assert_eq!(o.sz, b"0.01".to_vec());
    assert_eq!(o.cloid, Some(0x0123456789abcdef0123456789abcdefu128));
    assert!(matches!(o.kind, OrderKind::Limit { tif: Tif::Ioc }));
    assert!(matches!(back.grouping, Grouping::Na));
    assert!(back.builder.is_none());
}

#[test]
fn decode_rejects_trailing_bytes_and_garbage() {
    let action = Action {
        orders: vec![sample_order(None)],
        grouping: Grouping::Na,
        builder: None,
    };
    let mut bytes = encode_action(&action);
    bytes.push(0);
    assert!(decode_action(&bytes).is_none());
    let garbage: Vec<u8> = vec![0xff, 0x00, 0x12];
    assert!(decode_action(&garbage).is_none());
}

#[test]
fn large_batches_use_the_wide_array_header() {
    let mut orders = Vec::new();
    for _ in 0..17 {
        orders.push(sample_order(None));
    }
    let action = Action { orders, grouping: Grouping::Na, builder: None };
    let bytes = encode_action(&action);
    // After the three fixed keys comes an array16 header for 17 elements.
    let prefix_len = 1 + 5 + 6 + 7;
    assert_eq!(bytes[prefix_len], 0xdc);
    assert_eq!(bytes[prefix_len + 1], 0);
    assert_eq!(bytes[prefix_len + 2], 17);
    let back = decode_action(&bytes).expect("canonical bytes must decode");
    assert_eq!(back.orders.len(), 17);
}

#[test]
fn builder_reference_round_trips() {
    let action = Action {
        orders: vec![sample_order(None), sample_order(Some(0))],
        grouping: Grouping::NormalTpsl,
        builder: Some(order_pipeline::order::BuilderInfo {
            builder: b"0x00aa".to_vec(),
            fee: 65536,
        }),
    };
    let bytes = encode_action(&action);
    let back = decode_action(&bytes).expect("canonical bytes must decode");
    assert_eq!(back.orders.len(), 2);
    assert_eq!(back.orders[1].cloid, Some(0));
    assert!(matches!(back.grouping, Grouping::NormalTpsl));
    let b = back.builder.expect("builder must survive the round trip");
    assert_eq!(b.builder, b"0x00aa".to_vec());
    assert_eq!(b.fee, 65536);
}

#[test]
fn cloid_extremes_round_trip() {
    for c in [0u128, 1, u128::MAX] {
        let action = Action {
            orders: vec![sample_order(Some(c))],
            grouping: Grouping::Na,
            builder: None,
        };
        let back = decode_action(&encode_action(&action)).expect("must decode");
        assert_eq!(back.orders[0].cloid, Some(c));
    }
}

#[test]
fn decoder_requires_the_canonical_key_order() {
    let action = Action {
        orders: vec![sample_order(None)],
        grouping: Grouping::Na,
        builder: None,
    };
    let mut bytes = encode_action(&action);
    // Swap the "a" and "b" field names inside the order map: same JSON
    // meaning, but not the canonical byte form.
    let pos_a = 1 + 5 + 6 + 7 + 1 + 1;
    assert_eq!(bytes[pos_a], 0xa1);
    assert_eq!(bytes[pos_a + 1], b'a');
    assert_eq!(bytes[pos_a + 3], 0xa1);
    assert_eq!(bytes[pos_a + 4], b'b');
    bytes[pos_a + 1] = b'b';
    bytes[pos_a + 4] = b'a';
    assert!(decode_action(&bytes).is_none());
}
