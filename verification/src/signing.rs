//! Typed-data signing of an action digest.
//!
//! The action digest is wrapped in a typed-data envelope before signing:
//! a domain with name "Exchange", version "1", chain id 1337 and the zero
//! verifying contract, over an agent struct whose `source` field is "a" on
//! mainnet and "b" elsewhere and whose `connectionId` is the action digest.
//! Signing with the wrong network identity silently produces a well-formed
//! but rejected signature, so the network flag is part of the signing
//! domain.  The byte assembly is verified; the keccak primitive and the
//! ECDSA signature come from outside crates through trusted wrappers.

use vstd::prelude::*;
use crate::digest::{keccak_of, keccak256_bytes};
use crate::msgpack::put_bytes;
use alloy_signer::SignerSync;

verus! {

/// "EIP712Domain(string name,string version,uint256 chainId,address verifyingContract)"
pub open spec fn domain_type_bytes() -> Seq<u8> {
    seq![
        69u8, 73u8, 80u8, 55u8, 49u8, 50u8, 68u8, 111u8, 109u8, 97u8, 105u8, 110u8, 40u8, 115u8,
        116u8, 114u8, 105u8, 110u8, 103u8, 32u8, 110u8, 97u8, 109u8, 101u8, 44u8, 115u8, 116u8,
        114u8, 105u8, 110u8, 103u8, 32u8, 118u8, 101u8, 114u8, 115u8, 105u8, 111u8, 110u8, 44u8,
        117u8, 105u8, 110u8, 116u8, 50u8, 53u8, 54u8, 32u8, 99u8, 104u8, 97u8, 105u8, 110u8, 73u8,
        100u8, 44u8, 97u8, 100u8, 100u8, 114u8, 101u8, 115u8, 115u8, 32u8, 118u8, 101u8, 114u8,
        105u8, 102u8, 121u8, 105u8, 110u8, 103u8, 67u8, 111u8, 110u8, 116u8, 114u8, 97u8, 99u8,
        116u8, 41u8,
    ]
}

/// "Agent(string source,bytes32 connectionId)"
pub open spec fn agent_type_bytes() -> Seq<u8> {
    seq![
        65u8, 103u8, 101u8, 110u8, 116u8, 40u8, 115u8, 116u8, 114u8, 105u8, 110u8, 103u8, 32u8,
        115u8, 111u8, 117u8, 114u8, 99u8, 101u8, 44u8, 98u8, 121u8, 116u8, 101u8, 115u8, 51u8,
        50u8, 32u8, 99u8, 111u8, 110u8, 110u8, 101u8, 99u8, 116u8, 105u8, 111u8, 110u8, 73u8,
        100u8, 41u8,
    ]
}

/// "Exchange"
pub open spec fn domain_name_bytes() -> Seq<u8> {
    seq![69u8, 120u8, 99u8, 104u8, 97u8, 110u8, 103u8, 101u8]
}

/// "1"
pub open spec fn domain_version_bytes() -> Seq<u8> {
    seq![49u8]
}

/// Chain id 1337 as a 32-byte big-endian word.
pub open spec fn chain_id_bytes() -> Seq<u8> {
    seq![
        0u8, 0u8, 0u8, 0u8, 0u8, 0u8, 0u8, 0u8, 0u8, 0u8, 0u8, 0u8, 0u8, 0u8, 0u8, 0u8, 0u8, 0u8,
        0u8, 0u8, 0u8, 0u8, 0u8, 0u8, 0u8, 0u8, 0u8, 0u8, 0u8, 0u8, 5u8, 57u8,
    ]
}

/// The zero verifying contract as a 32-byte word.
pub open spec fn zero_contract_bytes() -> Seq<u8> {
    seq![
        0u8, 0u8, 0u8, 0u8, 0u8, 0u8, 0u8, 0u8, 0u8, 0u8, 0u8, 0u8, 0u8, 0u8, 0u8, 0u8, 0u8, 0u8,
        0u8, 0u8, 0u8, 0u8, 0u8, 0u8, 0u8, 0u8, 0u8, 0u8, 0u8, 0u8, 0u8, 0u8,
    ]
}

/// The domain separator of the signing domain.
pub open spec fn spec_domain_separator() -> Seq<u8> {
    keccak_of(
        keccak_of(domain_type_bytes()) + keccak_of(domain_name_bytes()) + keccak_of(
            domain_version_bytes(),
        ) + chain_id_bytes() + zero_contract_bytes(),
    )
}

/// The agent's `source` field: "a" on mainnet, "b" elsewhere.
pub open spec fn source_bytes(is_mainnet: bool) -> Seq<u8> {
    if is_mainnet {
        seq![97u8]
    } else {
        seq![98u8]
    }
}

/// The hash of the agent struct over the action digest.
pub open spec fn spec_agent_hash(cid: Seq<u8>, is_mainnet: bool) -> Seq<u8> {
    keccak_of(keccak_of(agent_type_bytes()) + keccak_of(source_bytes(is_mainnet)) + cid)
}

/// The digest handed to the ECDSA signer.
pub open spec fn spec_signing_digest(cid: Seq<u8>, is_mainnet: bool) -> Seq<u8> {
    keccak_of(seq![25u8, 1u8] + spec_domain_separator() + spec_agent_hash(cid, is_mainnet))
}

fn domain_type_vec() -> (r: Vec<u8>)
    ensures
        r@ == domain_type_bytes(),
{
    let v: Vec<u8> = vec![
        69u8, 73u8, 80u8, 55u8, 49u8, 50u8, 68u8, 111u8, 109u8, 97u8, 105u8, 110u8, 40u8, 115u8,
        116u8, 114u8, 105u8, 110u8, 103u8, 32u8, 110u8, 97u8, 109u8, 101u8, 44u8, 115u8, 116u8,
        114u8, 105u8, 110u8, 103u8, 32u8, 118u8, 101u8, 114u8, 115u8, 105u8, 111u8, 110u8, 44u8,
        117u8, 105u8, 110u8, 116u8, 50u8, 53u8, 54u8, 32u8, 99u8, 104u8, 97u8, 105u8, 110u8, 73u8,
        100u8, 44u8, 97u8, 100u8, 100u8, 114u8, 101u8, 115u8, 115u8, 32u8, 118u8, 101u8, 114u8,
        105u8, 102u8, 121u8, 105u8, 110u8, 103u8, 67u8, 111u8, 110u8, 116u8, 114u8, 97u8, 99u8,
        116u8, 41u8,
    ];
    proof {
        assert(v@ =~= domain_type_bytes());
    }
    v
}

fn agent_type_vec() -> (r: Vec<u8>)
    ensures
        r@ == agent_type_bytes(),
{
    let v: Vec<u8> = vec![
        65u8, 103u8, 101u8, 110u8, 116u8, 40u8, 115u8, 116u8, 114u8, 105u8, 110u8, 103u8, 32u8,
        115u8, 111u8, 117u8, 114u8, 99u8, 101u8, 44u8, 98u8, 121u8, 116u8, 101u8, 115u8, 51u8,
        50u8, 32u8, 99u8, 111u8, 110u8, 110u8, 101u8, 99u8, 116u8, 105u8, 111u8, 110u8, 73u8,
        100u8, 41u8,
    ];
    proof {
        assert(v@ =~= agent_type_bytes());
    }
    v
}

/// Compute the domain separator.
fn domain_separator() -> (r: Vec<u8>)
    ensures
        r@ == spec_domain_separator(),
        r@.len() == 32,
{
    let dt = domain_type_vec();
    let dth = keccak256_bytes(&dt);
    let name: Vec<u8> = vec![69u8, 120u8, 99u8, 104u8, 97u8, 110u8, 103u8, 101u8];
    proof {
        assert(name@ =~= domain_name_bytes());
    }
    let nameh = keccak256_bytes(&name);
    let ver: Vec<u8> = vec![49u8];
    proof {
        assert(ver@ =~= domain_version_bytes());
    }
    let verh = keccak256_bytes(&ver);
    let mut pre: Vec<u8> = Vec::new();
    put_bytes(&mut pre, dth.as_slice());
    put_bytes(&mut pre, nameh.as_slice());
    put_bytes(&mut pre, verh.as_slice());
    let chain: Vec<u8> = vec![
        0u8, 0u8, 0u8, 0u8, 0u8, 0u8, 0u8, 0u8, 0u8, 0u8, 0u8, 0u8, 0u8, 0u8, 0u8, 0u8, 0u8, 0u8,
        0u8, 0u8, 0u8, 0u8, 0u8, 0u8, 0u8, 0u8, 0u8, 0u8, 0u8, 0u8, 5u8, 57u8,
    ];
    proof {
        assert(chain@ =~= chain_id_bytes());
    }
    put_bytes(&mut pre, chain.as_slice());
    let contract: Vec<u8> = vec![
        0u8, 0u8, 0u8, 0u8, 0u8, 0u8, 0u8, 0u8, 0u8, 0u8, 0u8, 0u8, 0u8, 0u8, 0u8, 0u8, 0u8, 0u8,
        0u8, 0u8, 0u8, 0u8, 0u8, 0u8, 0u8, 0u8, 0u8, 0u8, 0u8, 0u8, 0u8, 0u8,
    ];
    proof {
        assert(contract@ =~= zero_contract_bytes());
    }
    put_bytes(&mut pre, contract.as_slice());
    proof {
        assert(pre@ =~= keccak_of(domain_type_bytes()) + keccak_of(domain_name_bytes())
            + keccak_of(domain_version_bytes()) + chain_id_bytes() + zero_contract_bytes());
    }
    keccak256_bytes(&pre)
}

/// Compute the digest the ECDSA signer covers.
pub fn signing_digest(connection_id: &Vec<u8>, is_mainnet: bool) -> (r: Vec<u8>)
    ensures
        r@ == spec_signing_digest(connection_id@, is_mainnet),
        r@.len() == 32,
{
    let at = agent_type_vec();
    let ath = keccak256_bytes(&at);
    let src: Vec<u8> = if is_mainnet {
        vec![97u8]
    } else {
        vec![98u8]
    };
    proof {
        assert(src@ =~= source_bytes(is_mainnet));
    }
    let srch = keccak256_bytes(&src);
    let mut agent_pre: Vec<u8> = Vec::new();
    put_bytes(&mut agent_pre, ath.as_slice());
    put_bytes(&mut agent_pre, srch.as_slice());
    put_bytes(&mut agent_pre, connection_id.as_slice());
    proof {
        assert(agent_pre@ =~= keccak_of(agent_type_bytes()) + keccak_of(
            source_bytes(is_mainnet),
        ) + connection_id@);
    }
    let agent_hash = keccak256_bytes(&agent_pre);
    let sep = domain_separator();
    let mut pre: Vec<u8> = Vec::new();
    pre.push(25);
    pre.push(1);
    put_bytes(&mut pre, sep.as_slice());
    put_bytes(&mut pre, agent_hash.as_slice());
    proof {
        assert(pre@ =~= seq![25u8, 1u8] + spec_domain_separator() + spec_agent_hash(
            connection_id@,
            is_mainnet,
        ));
    }
    keccak256_bytes(&pre)
}

/// A signature over an action digest: two 32-byte big-endian words and the
/// recovery parity.
pub struct Signature {
    pub r: Vec<u8>,
    pub s: Vec<u8>,
    pub parity: bool,
}

impl Signature {
    /// Well-formed: both words are exactly 32 bytes.
    pub open spec fn valid(self) -> bool {
        self.r@.len() == 32 && self.s@.len() == 32
    }
}

/// Key material was invalid or unavailable; the message comes from the
/// signing crate.
#[derive(Debug)]
pub struct SigningError {
    pub message: String,
}

/// What the ECDSA signer returns for a given key and digest: the two
/// 32-byte signature words and the recovery parity, or the signing crate's
/// error text.  The signer derives its nonce deterministically from key and
/// digest, so the outcome is a function of the two arguments alone.
pub uninterp spec fn sign_of(key: Seq<u8>, digest: Seq<u8>) -> Result<
    (Seq<u8>, Seq<u8>, bool),
    Seq<char>,
>;

/// Relies on `alloy_signer_local::PrivateKeySigner::from_slice` and
/// `alloy_signer::SignerSync::sign_hash_sync`: a deterministic ECDSA
/// signature over the given 32-byte digest under the given private key,
/// returned as the two 32-byte big-endian words and the recovery parity, or
/// the signing crate's error text when the key material is unusable.
#[verifier::external_body]
fn sign_hash_raw(key_bytes: &Vec<u8>, digest: &Vec<u8>) -> (r: Result<
    (Vec<u8>, Vec<u8>, bool),
    String,
>)
    requires
        digest@.len() == 32,
    ensures
        match r {
            Ok((rr, ss, p)) => {
                &&& rr@.len() == 32
                &&& ss@.len() == 32
                &&& sign_of(key_bytes@, digest@) == Ok::<(Seq<u8>, Seq<u8>, bool), Seq<char>>(
                    (rr@, ss@, p),
                )
            },
            Err(e) => sign_of(key_bytes@, digest@) == Err::<(Seq<u8>, Seq<u8>, bool), Seq<char>>(
                e@,
            ),
        },
{
    let signer = match alloy_signer_local::PrivateKeySigner::from_slice(key_bytes.as_slice()) {
        Ok(s) => s,
        Err(e) => return Err(e.to_string()),
    };
    match signer.sign_hash_sync(&alloy_primitives::B256::from_slice(digest.as_slice())) {
        Ok(g) => Ok((g.r().to_be_bytes::<32>().to_vec(), g.s().to_be_bytes::<32>().to_vec(), g.v())),
        Err(e) => Err(e.to_string()),
    }
}

/// Sign an action digest under the network identity.  Succeeds exactly when
/// the signer accepts the key, and then returns the signer's words for the
/// typed-data digest of this connection id; the digest's content never
/// makes it fail.
pub fn sign_action_digest(
    key_bytes: &Vec<u8>,
    connection_id: &Vec<u8>,
    is_mainnet: bool,
) -> (r: Result<Signature, SigningError>)
    ensures
        match r {
            Ok(sig) => {
                &&& sig.valid()
                &&& sign_of(key_bytes@, spec_signing_digest(connection_id@, is_mainnet)) == Ok::<
                    (Seq<u8>, Seq<u8>, bool),
                    Seq<char>,
                >((sig.r@, sig.s@, sig.parity))
            },
            Err(e) => sign_of(key_bytes@, spec_signing_digest(connection_id@, is_mainnet)) == Err::<
                (Seq<u8>, Seq<u8>, bool),
                Seq<char>,
            >(e.message@),
        },
{
    let d = signing_digest(connection_id, is_mainnet);
    match sign_hash_raw(key_bytes, &d) {
        Ok((rr, ss, p)) => Ok(Signature { r: rr, s: ss, parity: p }),
        Err(m) => Err(SigningError { message: m }),
    }
}

} // verus!
