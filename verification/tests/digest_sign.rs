use order_pipeline::digest::{action_digest, build_preimage};
use order_pipeline::signing::{sign_action_digest, signing_digest};

#[test]
fn digest_is_keccak_of_the_preimage() {
    let ab: Vec<u8> = vec![0xde, 0xad, 0xbe, 0xef];
    let d = action_digest(&ab, 0x0102030405060708, None);
    let mut preimage = ab.clone();
    preimage.extend_from_slice(&[1, 2, 3, 4, 5, 6, 7, 8, 0]);
    let expected = alloy_primitives::keccak256(&preimage);
    assert_eq!(d.as_slice(), expected.as_slice());
}

#[test]
fn preimage_is_bytes_nonce_then_marker() {
    let ab: Vec<u8> = vec![0xde, 0xad];
    let pre = build_preimage(&ab, 0x0102030405060708, None);
    assert_eq!(pre, vec![0xde, 0xad, 1, 2, 3, 4, 5, 6, 7, 8, 0]);
    let vault: Vec<u8> = vec![7u8; 20];
    let pre2 = build_preimage(&ab, 1, Some(&vault));
    let mut expected = vec![0xde, 0xad, 0, 0, 0, 0, 0, 0, 0, 1, 1];
    expected.extend_from_slice(&[7u8; 20]);
    assert_eq!(pre2, expected);
}

#[test]
fn digest_is_deterministic() {
    let ab: Vec<u8> = vec![1, 2, 3];
    let d1 = action_digest(&ab, 42, None);
    let d2 = action_digest(&ab, 42, None);
    assert_eq!(d1, d2);
    assert_eq!(d1.len(), 32);
    // A different nonce gives a different preimage, hence digest.
    let d3 = action_digest(&ab, 43, None);
    assert_ne!(d1, d3);
}

#[test]
fn signing_digest_separates_networks() {
    let cid: Vec<u8> = vec![9u8; 32];
    let mainnet = signing_digest(&cid, true);
    let testnet = signing_digest(&cid, false);
    assert_eq!(mainnet.len(), 32);
    assert_eq!(testnet.len(), 32);
    assert_ne!(mainnet, testnet);
    assert_eq!(mainnet, signing_digest(&cid, true));
}

#[test]
fn signing_rejects_unusable_key_material() {
    let cid: Vec<u8> = vec![9u8; 32];
    let bad_key: Vec<u8> = vec![1, 2, 3];
    assert!(sign_action_digest(&bad_key, &cid, true).is_err());
    let zero_key: Vec<u8> = vec![0u8; 32];
    assert!(sign_action_digest(&zero_key, &cid, true).is_err());
}

#[test]
fn signature_recovers_to_the_signing_address() {
    let key_bytes: Vec<u8> = vec![0x11u8; 32];
    let cid: Vec<u8> = vec![9u8; 32];
    let sig = sign_action_digest(&key_bytes, &cid, true).expect("valid key must sign");
    assert_eq!(sig.r.len(), 32);
    assert_eq!(sig.s.len(), 32);

    let signer = alloy_signer_local::PrivateKeySigner::from_slice(&key_bytes).unwrap();
    let digest = signing_digest(&cid, true);
    let alloy_sig = alloy_primitives::Signature::from_scalars_and_parity(
        alloy_primitives::B256::from_slice(&sig.r),
        alloy_primitives::B256::from_slice(&sig.s),
        sig.parity,
    );
    let recovered = alloy_sig
        .recover_address_from_prehash(&alloy_primitives::B256::from_slice(&digest))
        .unwrap();
    assert_eq!(recovered, signer.address());
}
