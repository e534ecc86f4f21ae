//! The signing digest over a canonical action.
//!
//! The digest preimage is the canonical action bytes, followed by the nonce
//! as eight big-endian bytes, followed by the vault marker: a single zero
//! byte when no vault address is given, or a one byte and the twenty address
//! bytes when one is.  The preimage layout is part of the wire contract: the
//! server recomputes it to check the signature.  The 32-byte keccak digest
//! of the preimage is the value that gets signed.

use vstd::prelude::*;
use crate::msgpack::{be8, put_bytes};

verus! {

/// The keccak-256 digest of a byte string.  The function itself is supplied
/// by an outside crate; nothing is assumed of its values beyond their
/// length.
pub uninterp spec fn keccak_of(b: Seq<u8>) -> Seq<u8>;

/// Relies on `alloy_primitives::keccak256`: returns the 32-byte keccak-256
/// digest of the input bytes, a function of the input alone.
#[verifier::external_body]
pub(crate) fn keccak256_bytes(data: &Vec<u8>) -> (r: Vec<u8>)
    ensures
        r@ == keccak_of(data@),
        r@.len() == 32,
{
    alloy_primitives::keccak256(data.as_slice()).to_vec()
}

/// The digest preimage: canonical bytes, nonce, vault marker.
pub open spec fn digest_preimage(ab: Seq<u8>, nonce: u64, vault: Option<Seq<u8>>) -> Seq<u8> {
    ab + be8(nonce as int) + match vault {
        None => seq![0u8],
        Some(v) => seq![1u8] + v,
    }
}

/// The action digest: keccak over the preimage.
pub open spec fn spec_action_digest(ab: Seq<u8>, nonce: u64, vault: Option<Seq<u8>>) -> Seq<u8> {
    keccak_of(digest_preimage(ab, nonce, vault))
}

/// Assemble the digest preimage.
pub fn build_preimage(action_bytes: &Vec<u8>, nonce: u64, vault: Option<&Vec<u8>>) -> (r: Vec<u8>)
    requires
        match vault {
            Some(v) => v@.len() == 20,
            None => true,
        },
    ensures
        r@ == digest_preimage(
            action_bytes@,
            nonce,
            match vault {
                Some(v) => Some(v@),
                None => None,
            },
        ),
{
    let mut r: Vec<u8> = Vec::new();
    put_bytes(&mut r, action_bytes.as_slice());
    let v = nonce;
    r.push(((v / 0x100000000000000) % 256) as u8);
    r.push(((v / 0x1000000000000) % 256) as u8);
    r.push(((v / 0x10000000000) % 256) as u8);
    r.push(((v / 0x100000000) % 256) as u8);
    r.push(((v / 0x1000000) % 256) as u8);
    r.push(((v / 0x10000) % 256) as u8);
    r.push(((v / 256) % 256) as u8);
    r.push((v % 256) as u8);
    proof {
        assert(r@ =~= action_bytes@ + be8(nonce as int));
    }
    match vault {
        None => {
            r.push(0);
            proof {
                assert(r@ =~= digest_preimage(action_bytes@, nonce, None));
            }
        },
        Some(va) => {
            r.push(1);
            put_bytes(&mut r, va.as_slice());
            proof {
                assert(r@ =~= digest_preimage(action_bytes@, nonce, Some(va@)));
            }
        },
    }
    r
}

/// Compute the action digest that the signer covers.
pub fn action_digest(action_bytes: &Vec<u8>, nonce: u64, vault: Option<&Vec<u8>>) -> (r: Vec<u8>)
    requires
        match vault {
            Some(v) => v@.len() == 20,
            None => true,
        },
    ensures
        r@ == spec_action_digest(
            action_bytes@,
            nonce,
            match vault {
                Some(v) => Some(v@),
                None => None,
            },
        ),
        r@.len() == 32,
{
    let pre = build_preimage(action_bytes, nonce, vault);
    keccak256_bytes(&pre)
}

/// The digest is a function of the canonical bytes, the nonce and the vault
/// marker alone: equal inputs always give the identical digest.
pub proof fn lemma_digest_deterministic(
    ab1: Seq<u8>,
    n1: u64,
    v1: Option<Seq<u8>>,
    ab2: Seq<u8>,
    n2: u64,
    v2: Option<Seq<u8>>,
)
    requires
        ab1 == ab2,
        n1 == n2,
        v1 == v2,
    ensures
        spec_action_digest(ab1, n1, v1) == spec_action_digest(ab2, n2, v2),
{
}

} // verus!
