//! The end-to-end flow that ties the wire formats and the crypto together: build a
//! SUIT manifest, sign it as a `COSE_Sign1` and verify it, then seal a payload into a
//! `COSE_Encrypt` and unseal it, in either crypto profile, with the integer COSE
//! codepoint on the wire selecting the backend.
//!
//! Randomness is the caller's: the flows take the entropy bytes they consume.

pub mod sign;
pub mod seal;
pub mod run;
