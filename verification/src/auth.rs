//! The authorization check, and the administrative issuance of API keys.

use vstd::prelude::*;
use crate::error::{AuthError, KeyStoreError};
use crate::store::DB;

verus! {

/// A character the key generator can draw.
pub open spec fn is_alphanumeric_char(c: char) -> bool {
    ('A' <= c && c <= 'Z') || ('a' <= c && c <= 'z') || ('0' <= c && c <= '9')
}

/// Relies on rand's `thread_rng` and `Alphanumeric` distribution: 32
/// characters drawn from A-Z, a-z and 0-9. Nothing else is assumed of the
/// draw.
#[verifier::external_body]
fn random_alphanumeric_key() -> (r: String)
    ensures
        r@.len() == 32,
        forall|i: int| 0 <= i < r@.len() ==> is_alphanumeric_char(#[trigger] r@[i]),
{
    rand::Rng::sample_iter(rand::thread_rng(), &rand::distributions::Alphanumeric).take(32).map(
        char::from,
    ).collect()
}

/// Validates the API key of an inbound request against the binding table;
/// the bound host is returned as the caller identity. Fails with `Missing`
/// when no key was supplied at all and with `Invalid` when the key matches
/// no binding; the two outcomes are distinct here and nowhere else, so that
/// responses need not reveal which occurred.
pub fn authorize(db: &DB, api_key: Option<&String>) -> (r: Result<String, AuthError>)
    requires
        db.wf(),
    ensures
        match api_key {
            None => r == Err::<String, AuthError>(AuthError::Missing),
            Some(k) => if db.key_map().contains_key(k@) {
                r matches Ok(h) && h@ == db.key_map()[k@]
            } else {
                r == Err::<String, AuthError>(AuthError::Invalid)
            },
        },
{
    match api_key {
        None => Err(AuthError::Missing),
        Some(k) => match db.get_host_for_api_key(k.as_str()) {
            Ok(h) => Ok(h),
            Err(_) => Err(AuthError::Invalid),
        },
    }
}

/// Generates a fresh 32-character alphanumeric key and binds it to `host`;
/// the raw key is returned exactly once, here. Fails only when the drawn
/// key collides with a key already bound — so never on an empty binding
/// table — leaving the store unchanged; the secret table is never touched.
pub fn create_api_key(db: &mut DB, host: &str) -> (r: Result<String, KeyStoreError>)
    requires
        old(db).wf(),
    ensures
        final(db).wf(),
        final(db).secret_map() == old(db).secret_map(),
        final(db).fresh_id() == old(db).fresh_id(),
        r matches Ok(key) ==> key@.len() == 32 && (forall|i: int|
            0 <= i < key@.len() ==> is_alphanumeric_char(#[trigger] key@[i])) && !old(
            db,
        ).key_map().contains_key(key@) && final(db).key_map() =~= old(db).key_map().insert(
            key@,
            host@,
        ),
        r matches Err(e) ==> e == KeyStoreError::DuplicateKey,
        r is Err ==> *final(db) == *old(db) && exists|k: Seq<char>|
            k.len() == 32 && #[trigger] old(db).key_map().contains_key(k),
{
    let key = random_alphanumeric_key();
    match db.add_api_key(host, key.as_str()) {
        Ok(()) => Ok(key),
        Err(e) => Err(e),
    }
}

} // verus!
