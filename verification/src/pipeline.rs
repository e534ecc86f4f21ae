//! The submission orchestrator.
//!
//! One submission runs the stages exactly once, in order: issue a nonce,
//! encode the action canonically, digest it, sign the digest under the
//! network identity, and assemble the JSON wire body.  Nothing is retried
//! and no intermediate value is cached across calls; only the nonce
//! generator carries state, and it advances even when signing fails, since
//! a consumed nonce must never be reused.  The network exchange itself and
//! the clock readings are the caller's: the caller posts the body, then
//! hands the status and response text to the classifier.

use vstd::prelude::*;
use vstd::string::StringExecFns;
use crate::order::Action;
use crate::nonce::{NonceGen, spec_next_nonce};
use crate::msgpack::{encode_action, enc_action};
use crate::digest::{action_digest, spec_action_digest};
use crate::signing::{sign_action_digest, sign_of, spec_signing_digest, Signature, SigningError};
use crate::envelope::{build_envelope, spec_envelope};

verus! {

/// The production endpoint.
pub open spec fn mainnet_url() -> Seq<char> {
    "https://api.hyperliquid.xyz"@
}

/// Whether a base URL is the production endpoint, whose orders must be
/// signed under the mainnet identity.
pub fn is_mainnet(base_url: &String) -> (r: bool)
    ensures
        r == (base_url@ == mainnet_url()),
{
    let m: String = "https://api.hyperliquid.xyz".to_owned();
    base_url.eq(&m)
}

/// Join the base URL and a path, byte for byte.
pub fn join_url(base_url: &String, path: &str) -> (r: String)
    ensures
        r@ == base_url@ + path@,
{
    let mut r: String = base_url.as_str().to_owned();
    r.append(path);
    r
}

/// Everything a submission needs to go on the wire.
pub struct Prepared {
    /// The exact JSON body to post.
    pub body: Vec<u8>,
    /// The nonce the body carries; never reissued.
    pub nonce: u64,
    /// The signature the body carries.
    pub signature: Signature,
}

/// The signature the signer produces for one submission: over the
/// typed-data digest of the action digest for this canonical action, nonce
/// and vault marker, under this key and network identity.
pub open spec fn spec_submission_signature(
    a: Action,
    nonce: u64,
    key: Seq<u8>,
    mainnet: bool,
    vault: Option<Seq<u8>>,
) -> Result<(Seq<u8>, Seq<u8>, bool), Seq<char>> {
    sign_of(key, spec_signing_digest(spec_action_digest(enc_action(a), nonce, vault), mainnet))
}

/// The wire body one submission produces, or the signer's error text: a
/// function of the action, nonce, key, network identity and vault marker
/// alone, so identical inputs always give byte-identical bodies.
pub open spec fn spec_submission_body(
    a: Action,
    nonce: u64,
    key: Seq<u8>,
    mainnet: bool,
    vault: Option<Seq<u8>>,
) -> Result<Seq<u8>, Seq<char>> {
    match spec_submission_signature(a, nonce, key, mainnet, vault) {
        Ok((rr, ss, p)) => Ok(spec_envelope(a, nonce, rr, ss, p)),
        Err(d) => Err(d),
    }
}

/// Run the computing stages of one submission: nonce, canonical encoding,
/// digest, signature, envelope.  The nonce generator advances exactly once,
/// also when signing fails: a consumed nonce is never rolled back.  The
/// call succeeds exactly when the signer accepts the key; on success the
/// body is exactly the wire envelope for this action, the issued nonce and
/// the signature the signer produced over this submission's digest.
pub fn prepare_submission(
    action: &Action,
    gen: &mut NonceGen,
    now_ms: u64,
    key_bytes: &Vec<u8>,
    is_mainnet: bool,
    vault: Option<&Vec<u8>>,
) -> (r: Result<Prepared, SigningError>)
    requires
        action.valid(),
        old(gen).last < u64::MAX,
        match vault {
            Some(v) => v@.len() == 20,
            None => true,
        },
    ensures
        final(gen).last == spec_next_nonce(old(gen).last as int, now_ms),
        ({
            let vaultv = match vault {
                Some(v) => Some(v@),
                None => None,
            };
            match r {
                Ok(p) => {
                    &&& p.nonce == final(gen).last
                    &&& p.signature.valid()
                    &&& spec_submission_signature(
                        *action,
                        p.nonce,
                        key_bytes@,
                        is_mainnet,
                        vaultv,
                    ) == Ok::<(Seq<u8>, Seq<u8>, bool), Seq<char>>(
                        (p.signature.r@, p.signature.s@, p.signature.parity),
                    )
                    &&& p.body@ == spec_envelope(
                        *action,
                        p.nonce,
                        p.signature.r@,
                        p.signature.s@,
                        p.signature.parity,
                    )
                    &&& spec_submission_body(*action, p.nonce, key_bytes@, is_mainnet, vaultv)
                        == Ok::<Seq<u8>, Seq<char>>(p.body@)
                },
                Err(e) => spec_submission_body(
                    *action,
                    final(gen).last,
                    key_bytes@,
                    is_mainnet,
                    vaultv,
                ) == Err::<Seq<u8>, Seq<char>>(e.message@),
            }
        }),
{
    let nonce = gen.next(now_ms);
    let canonical = encode_action(action);
    let digest = action_digest(&canonical, nonce, vault);
    let signature = match sign_action_digest(key_bytes, &digest, is_mainnet) {
        Ok(s) => s,
        Err(e) => {
            return Err(e);
        },
    };
    let body = build_envelope(action, nonce, &signature);
    Ok(Prepared { body, nonce, signature })
}

} // verus!
