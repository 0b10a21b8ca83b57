use vstd::prelude::*;

verus! {

/// The ways in which a protocol operation can fail.
#[derive(Debug, Clone, Copy, PartialEq, Eq, Structural)]
pub enum OprfError {
    InvalidKeyLength,
    InvalidScalar,
    DecodeError,
    MissingPublicKey,
    BatchLengthMismatch,
    ProofVerificationFailed,
    InvalidHex,
}

} // verus!
