//! Error taxonomy of the service.

use vstd::prelude::*;

verus! {

/// Payload of a request that is rejected before any operation runs:
/// malformed or missing fields, or a bad API key.
pub struct InvalidReqBody {
    error: String,
}

impl View for InvalidReqBody {
    type V = Seq<char>;

    closed spec fn view(&self) -> Seq<char> {
        self.error@
    }
}

impl InvalidReqBody {
    pub fn new(error: &str) -> (r: Self)
        ensures
            r@ == error@,
    {
        Self { error: error.to_owned() }
    }

    /// The caller-visible text of this rejection.
    pub fn message(&self) -> (r: &String)
        ensures
            r@ == self@,
    {
        &self.error
    }
}

/// Why authorization refused a request.
#[derive(Clone, Copy, Debug, PartialEq, Eq, Structural)]
pub enum AuthError {
    /// No API key was supplied at all.
    Missing,
    /// A key was supplied but matches no binding.
    Invalid,
}

/// Why creating a secret record failed.
#[derive(Clone, Copy, Debug, PartialEq, Eq, Structural)]
pub enum CreateError {
    /// A record with the requested ident already exists.
    DuplicateIdent,
    /// Any other store-level failure.
    StoreFailure,
}

/// Why deleting a secret record failed. Deleting an absent ident is not an
/// error.
#[derive(Clone, Copy, Debug, PartialEq, Eq, Structural)]
pub enum DeleteError {
    /// A store-level failure.
    StoreFailure,
}

/// Why fetching a secret record failed.
#[derive(Clone, Copy, Debug, PartialEq, Eq, Structural)]
pub enum LookupError {
    /// No record matches.
    NotFound,
    /// Any other store-level failure.
    StoreFailure,
}

/// Why storing a new API-key binding failed.
#[derive(Clone, Copy, Debug, PartialEq, Eq, Structural)]
pub enum KeyStoreError {
    /// A binding with the same key already exists.
    DuplicateKey,
    /// Any other store-level failure.
    StoreFailure,
}

/// Why the externally supplied configuration was refused at startup.
#[derive(Clone, Copy, Debug, PartialEq, Eq, Structural)]
pub enum ConfigError {
    /// `secret_len` must be positive and fit the generator's limit.
    BadSecretLen,
    /// `default_width` must be positive and fit a `u32`.
    BadWidth,
    /// `default_height` must be positive and fit a `u32`.
    BadHeight,
}

} // verus!
