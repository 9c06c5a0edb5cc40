//! Construction, BIP143 signing, and wire serialization of single-input
//! pay-to-witness-public-key-hash (P2WPKH) Bitcoin transactions.

use vstd::prelude::*;

pub mod builder;
pub mod crypto;
pub mod decode;
pub mod encode;
pub mod scan;
pub mod sighash;
pub mod sign;
pub mod tx;

verus! {

/// All error conditions the library reports.
#[derive(Clone, Copy, Debug, PartialEq, Eq, Structural)]
pub enum Error {
    /// A locking script that is not the P2WPKH pattern.
    MalformedScript,
    /// Output values exceed the available input value.
    InvalidAmount,
    /// The input index to sign is out of range.
    SighashComputationError,
    /// The secret key is not a valid curve scalar.
    SigningError,
    /// A length prefix would not fit the wire format's integer range.
    SerializationOverflow,
}

} // verus!
