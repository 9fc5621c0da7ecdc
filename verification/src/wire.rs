//! Wire formats: the canonical CBOR layer and the protocol types encoded with it.

pub mod cbor;
pub mod ascii;
pub mod alg;
pub mod bytes;
pub mod digest;
pub mod error;
pub mod manifest;
pub mod cose;
pub mod message;
