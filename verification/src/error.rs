//! Error types.
//!
//! Verification outcomes distinguish a *deny* (an ordinary `false` result:
//! the event is rejected, nothing is wrong with the caller's own state) from
//! a *structural error* (the caller's state or its crypto provider is in no
//! shape to decide). The variants of [`EntityError`] cover the structural
//! side only.

use vstd::prelude::*;

verus! {

/// A structural error from the identity engine or its crypto provider.
#[derive(Clone, Copy, Debug, PartialEq, Eq, Structural)]
pub enum EntityError {
    /// A lookup needed a non-empty history.
    EmptyHistory,
    /// No event carries the requested label.
    NotFound,
    /// Structurally invalid verification input, such as a root signature
    /// presented with a genesis event.
    VerifyFailed,
    /// The crypto provider could not complete a call.
    VaultFailed,
}

impl EntityError {
    /// A short description, for reporting at the application edge.
    pub fn message(&self) -> &'static str {
        match self {
            EntityError::EmptyHistory => "empty history",
            EntityError::NotFound => "no event with this label",
            EntityError::VerifyFailed => "structurally invalid verification input",
            EntityError::VaultFailed => "crypto provider failure",
        }
    }
}

/// A node-level error: a numeric code inside a named error domain.
#[derive(Clone, Debug, PartialEq, Eq)]
pub struct Error {
    /// The numeric code.
    pub code: u32,
    /// The name of the error domain.
    pub domain: String,
}

impl Error {
    /// Pack a code and its domain name.
    pub fn new(code: u32, domain: String) -> (r: Self)
        ensures
            r.code == code,
            r.domain@ == domain@,
    {
        Error { code, domain }
    }

    /// The numeric code.
    pub fn code(&self) -> (r: u32)
        ensures
            r == self.code,
    {
        self.code
    }

    /// The domain name.
    pub fn domain(&self) -> (r: &String)
        ensures
            r@ == self.domain@,
    {
        &self.domain
    }
}

} // verus!
