use vstd::prelude::*;
use vstd::string::StringExecFns;

use crate::util::{append_hex, spec_hex};

verus! {

/// Errors reported by the wallet core.
///
/// Parse errors, derivation errors, insufficiency and signing failure are
/// distinct kinds: the first is an input problem, the second a key problem,
/// the third a funds problem and the fourth a configuration problem.
#[derive(Debug)]
pub enum Error {
    /// An input could not be parsed (malformed base64, malformed program
    /// encoding, malformed network name). Carries a description of the text
    /// that was rejected.
    CouldNotParse(String),
    /// The derivation cursor reached the hardened-index boundary; no further
    /// child index can be handed out. Carries the exhausted cursor value.
    IndexExhausted(u32),
    /// A child index at or above the hardened boundary was requested.
    InvalidChildIndex(u32),
    /// Extended-key derivation failed inside the key library.
    Derivation,
    /// Finalizing a witness structure failed: the structure is internally
    /// inconsistent. Carries the reported reason.
    Finalize(String),
    /// The selected coins do not cover the requested amount plus fee.
    NotEnoughFunds,
    /// Signature or witness material is missing for at least one input.
    CouldNotSatisfy,
    /// An assembly index beyond the registered range was requested.
    AssemblyOutOfBounds,
    /// A program root that was never imported was referenced. Carries the
    /// 32-byte root.
    UnknownAssembly(Vec<u8>),
}

/// The message of each error kind: distinct texts for the distinct kinds,
/// the carried detail surfaced verbatim, and the offending root named in
/// hex.
pub open spec fn spec_message(e: &Error) -> Seq<char> {
    match e {
        Error::CouldNotParse(detail) => "Could not parse: "@ + detail@,
        Error::IndexExhausted(_) => "Derivation index exhausted"@,
        Error::InvalidChildIndex(_) => "Invalid child index"@,
        Error::Derivation => "Key derivation failed"@,
        Error::Finalize(detail) => "Could not finalize witness: "@ + detail@,
        Error::NotEnoughFunds => "Not enough funds"@,
        Error::CouldNotSatisfy => "Could not satisfy"@,
        Error::AssemblyOutOfBounds => "Assembly fragment is out of bounds"@,
        Error::UnknownAssembly(root) => "Unknown assembly fragment (not imported): "@ + spec_hex(
            root@,
        ),
    }
}

impl Error {
    /// A short human-readable description of the error.
    pub fn message(&self) -> (r: String)
        ensures
            r@ == spec_message(self),
    {
        let mut s = String::new();
        match self {
            Error::CouldNotParse(detail) => {
                s.append("Could not parse: ");
                s.append(detail.as_str());
            },
            Error::IndexExhausted(_) => {
                s.append("Derivation index exhausted");
            },
            Error::InvalidChildIndex(_) => {
                s.append("Invalid child index");
            },
            Error::Derivation => {
                s.append("Key derivation failed");
            },
            Error::Finalize(detail) => {
                s.append("Could not finalize witness: ");
                s.append(detail.as_str());
            },
            Error::NotEnoughFunds => {
                s.append("Not enough funds");
            },
            Error::CouldNotSatisfy => {
                s.append("Could not satisfy");
            },
            Error::AssemblyOutOfBounds => {
                s.append("Assembly fragment is out of bounds");
            },
            Error::UnknownAssembly(root) => {
                s.append("Unknown assembly fragment (not imported): ");
                append_hex(&mut s, root);
            },
        }
        s
    }
}

} // verus!
