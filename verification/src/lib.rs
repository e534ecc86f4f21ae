//! A verified order-submission pipeline for an exchange API.
//!
//! The pipeline turns a typed order description into the exact bytes that
//! travel on the wire: a canonical binary encoding of the action, a keccak
//! digest over that encoding together with a nonce and a vault marker, a
//! typed-data signature over the digest, and the JSON envelope that carries
//! action, nonce and signature.  A response classifier maps the HTTP status
//! and body that come back into a precise outcome taxonomy.  Every byte
//! layout is stated as a specification function and the executable code is
//! proved to produce it.

pub mod ascii;
pub mod classify;
pub mod digest;
pub mod envelope;
pub mod msgpack;
pub mod nonce;
pub mod order;
pub mod pipeline;
pub mod signing;
pub mod timing;
