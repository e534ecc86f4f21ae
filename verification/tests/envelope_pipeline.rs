use order_pipeline::ascii::{check_decimal, dec_u64, hex_bytes};
use order_pipeline::envelope::{action_json, build_envelope};
use order_pipeline::nonce::NonceGen;
use order_pipeline::order::{
    Action, BuilderInfo, EncodingError, Grouping, OrderDescription, OrderKind, Tif, render_cloid,
};
use order_pipeline::pipeline::{is_mainnet, join_url, prepare_submission};
use order_pipeline::signing::Signature;

fn sample_order() -> OrderDescription {
    OrderDescription::new(
        1,
        true,
        false,
        b"2000".to_vec(),
        b"0.01".to_vec(),
        None,
        OrderKind::Limit { tif: Tif::Ioc },
        4,
    )
    .unwrap()
}

#[test]
fn action_json_is_the_exact_wire_object() {
    let action = Action {
        orders: vec![sample_order()],
        grouping: Grouping::Na,
        builder: None,
    };
    let j = action_json(&action);
    assert_eq!(
        String::from_utf8(j).unwrap(),
        "{\"type\":\"order\",\"orders\":[{\"a\":1,\"b\":true,\"p\":\"2000\",\"s\":\"0.01\",\
         \"r\":false,\"t\":{\"limit\":{\"tif\":\"Ioc\"}}}],\"grouping\":\"na\"}"
    );
}

#[test]
fn action_json_with_builder_and_two_orders() {
    let mut second = sample_order();
    second.is_buy = false;
    second.cloid = Some(0xabcu128);
    let action = Action {
        orders: vec![sample_order(), second],
        grouping: Grouping::Na,
        builder: Some(BuilderInfo { builder: b"0x1111".to_vec(), fee: 10 }),
    };
    let j = String::from_utf8(action_json(&action)).unwrap();
    assert!(j.starts_with("{\"type\":\"order\",\"orders\":[{\"a\":1,"));
    assert!(j.contains("},{\"a\":1,\"b\":false,"));
    assert!(j.contains("\"c\":\"0x00000000000000000000000000000abc\"}"));
    assert!(j.ends_with("\"grouping\":\"na\",\"builder\":{\"b\":\"0x1111\",\"f\":10}}"));
}

#[test]
fn envelope_lays_out_action_nonce_and_signature() {
    let action = Action {
        orders: vec![sample_order()],
        grouping: Grouping::Na,
        builder: None,
    };
    let sig = Signature { r: vec![0xabu8; 32], s: vec![0x01u8; 32], parity: true };
    let body = build_envelope(&action, 1234567890, &sig);
    let text = String::from_utf8(body).unwrap();
    let expected_action = String::from_utf8(action_json(&action)).unwrap();
    let expected = format!(
        "{{\"action\":{},\"nonce\":1234567890,\"signature\":{{\"r\":\"0x{}\",\"s\":\"0x{}\",\"v\":28}}}}",
        expected_action,
        "ab".repeat(32),
        "01".repeat(32),
    );
    assert_eq!(text, expected);
}

#[test]
fn renderers_produce_exact_text() {
    assert_eq!(dec_u64(0), b"0".to_vec());
    assert_eq!(dec_u64(1234567890), b"1234567890".to_vec());
    assert_eq!(dec_u64(u64::MAX), b"18446744073709551615".to_vec());
    assert_eq!(hex_bytes(&vec![0x00, 0xff, 0x1a]), b"00ff1a".to_vec());
    assert_eq!(
        render_cloid(0x0123456789abcdef0123456789abcdefu128),
        b"0x0123456789abcdef0123456789abcdef".to_vec()
    );
}

#[test]
fn decimal_validation_accepts_canonical_and_rejects_the_rest() {
    assert!(check_decimal(&b"2000".to_vec(), 0));
    assert!(check_decimal(&b"0.01".to_vec(), 2));
    assert!(!check_decimal(&b"0.01".to_vec(), 1));
    assert!(!check_decimal(&b"".to_vec(), 4));
    assert!(!check_decimal(&b"1.".to_vec(), 4));
    assert!(!check_decimal(&b".5".to_vec(), 4));
    assert!(!check_decimal(&b"1.50".to_vec(), 4));
    assert!(!check_decimal(&b"1.2.3".to_vec(), 4));
    assert!(!check_decimal(&b"12a".to_vec(), 4));
}

#[test]
fn construction_rejects_what_cannot_be_represented() {
    let bad_price = OrderDescription::new(
        1,
        true,
        false,
        b"20x0".to_vec(),
        b"0.01".to_vec(),
        None,
        OrderKind::Limit { tif: Tif::Ioc },
        4,
    );
    assert!(matches!(bad_price, Err(EncodingError::InvalidPrice)));
    let bad_size = OrderDescription::new(
        1,
        true,
        false,
        b"2000".to_vec(),
        b"0.001".to_vec(),
        None,
        OrderKind::Limit { tif: Tif::Ioc },
        2,
    );
    assert!(matches!(bad_size, Err(EncodingError::InvalidSize)));
}

#[test]
fn prepare_submission_builds_the_posted_body() {
    let action = Action {
        orders: vec![sample_order()],
        grouping: Grouping::Na,
        builder: None,
    };
    let mut gen = NonceGen::new();
    let key: Vec<u8> = vec![0x11u8; 32];
    let p = prepare_submission(&action, &mut gen, 1_700_000_000_000, &key, true, None)
        .expect("a valid key must sign");
    assert_eq!(p.nonce, 1_700_000_000_000);
    assert_eq!(gen.last, p.nonce);
    let text = String::from_utf8(p.body).unwrap();
    assert!(text.starts_with("{\"action\":{\"type\":\"order\""));
    assert!(text.contains("\"nonce\":1700000000000"));
    assert!(text.contains("\"signature\":{\"r\":\"0x"));
    assert!(text.ends_with("}}"));

    // The nonce advances even if a later submission fails to sign.
    let bad_key: Vec<u8> = vec![0u8; 32];
    let r = prepare_submission(&action, &mut gen, 5, &bad_key, true, None);
    assert!(r.is_err());
    assert_eq!(gen.last, 1_700_000_000_001);
}

#[test]
fn mainnet_is_recognised_by_its_url() {
    assert!(is_mainnet(&String::from("https://api.hyperliquid.xyz")));
    assert!(!is_mainnet(&String::from("https://api.hyperliquid-testnet.xyz")));
    assert_eq!(
        join_url(&String::from("https://api.hyperliquid.xyz"), "/exchange"),
        "https://api.hyperliquid.xyz/exchange"
    );
}

#[test]
fn identical_inputs_prepare_byte_identical_bodies() {
    let action = Action {
        orders: vec![sample_order()],
        grouping: Grouping::Na,
        builder: None,
    };
    let key: Vec<u8> = vec![0x11u8; 32];
    let mut gen1 = NonceGen::new();
    let mut gen2 = NonceGen::new();
    let p1 = prepare_submission(&action, &mut gen1, 77, &key, true, None).unwrap();
    let p2 = prepare_submission(&action, &mut gen2, 77, &key, true, None).unwrap();
    assert_eq!(p1.nonce, p2.nonce);
    assert_eq!(p1.body, p2.body);
    assert_eq!(p1.signature.r, p2.signature.r);
    assert_eq!(p1.signature.s, p2.signature.s);
    assert_eq!(p1.signature.parity, p2.signature.parity);
}
