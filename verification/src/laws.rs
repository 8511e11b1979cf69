//! The library-wide laws: properties that relate several operations,
//! stated over the same store views and operation promises the library's
//! contracts use, and proved from them.

use vstd::prelude::*;
use crate::config::Config;
use crate::error::AuthError;
use crate::base32::b32_enc_len;
use crate::handler::{create_post, delete_post, handle_post, is_auth_rejection, verify_post,
    ApiRequest, ApiResponse};
use crate::store::DB;
use crate::totp::{accepted, ga_secret_ok, hotp_code, window_hi, window_lo};

verus! {

/// A secret created under a fresh ident is exactly what a subsequent
/// lookup of that ident returns: creation inserts the pair, and lookup
/// reads the map it inserted into.
pub proof fn lemma_create_then_lookup(
    db0: DB,
    db1: DB,
    ident: Seq<char>,
    id: i64,
    secret: Seq<char>,
)
    requires
        !db0.secret_map().contains_key(ident),
        db1.secret_map() == db0.secret_map().insert(ident, (id, secret)),
    ensures
        db1.secret_map().contains_key(ident),
        db1.secret_map()[ident].1 == secret,
{
}

/// Creating an ident that already exists fails as a duplicate — not as a
/// generic failure — and changes nothing: not the store, so not the
/// original secret either.
pub proof fn lemma_duplicate_create(
    db0: DB,
    db1: DB,
    cfg: Config,
    ident: Seq<char>,
    r: ApiResponse,
)
    requires
        create_post(db0, db1, cfg, Some(ident), r),
        db0.secret_map().contains_key(ident),
    ensures
        r matches ApiResponse::Failed { message } && message@ == "Database error: duplicate entry"@,
        db1 == db0,
        db1.secret_map()[ident] == db0.secret_map()[ident],
{
}

/// Deleting an ident with no record succeeds all the same and leaves the
/// secret table exactly as it was.
pub proof fn lemma_delete_absent(db0: DB, db1: DB, ident: Seq<char>, r: ApiResponse)
    requires
        delete_post(db0, db1, Some(ident), r),
        !db0.secret_map().contains_key(ident),
    ensures
        r == ApiResponse::Deleted,
        db1.secret_map() == db0.secret_map(),
{
    assert(db0.secret_map().remove(ident) =~= db0.secret_map());
}

/// Deleting one ident never alters any other ident's record, present or
/// absent.
pub proof fn lemma_delete_other_records(
    db0: DB,
    db1: DB,
    ident: Seq<char>,
    other: Seq<char>,
    r: ApiResponse,
)
    requires
        delete_post(db0, db1, Some(ident), r),
        other != ident,
    ensures
        db1.secret_map().contains_key(other) == db0.secret_map().contains_key(other),
        db0.secret_map().contains_key(other) ==> db1.secret_map()[other] == db0.secret_map()[other],
{
}

/// The code derived for the current 30-second step is accepted at that
/// step, whatever the tolerance.
pub proof fn lemma_current_code_accepted(secret: Seq<char>, tolerance: u64, slice: u64)
    requires
        ga_secret_ok(secret),
        slice >= 1,
    ensures
        accepted(secret, hotp_code(secret, slice), tolerance, slice),
{
    assert(window_lo(slice, tolerance) <= slice as int <= window_hi(slice, tolerance));
}

/// A code that equals the derived code of no step within the tolerance
/// window is rejected. In particular, a code derived only for steps more
/// than `tolerance` away is rejected — unless it happens to coincide with
/// some in-window code, which six digits cannot exclude.
pub proof fn lemma_out_of_window_code_rejected(
    secret: Seq<char>,
    code: Seq<char>,
    tolerance: u64,
    slice: u64,
)
    requires
        forall|s: u64|
            window_lo(slice, tolerance) <= s <= window_hi(slice, tolerance) ==> code != #[trigger] hotp_code(
                secret,
                s,
            ),
    ensures
        !accepted(secret, code, tolerance, slice),
{
}

/// A create on a fresh ident, with id space left, succeeds: the response
/// carries the ident and a secret of the configured encoded length, that
/// very secret is then stored under the ident, and no other record changes.
pub proof fn lemma_fresh_create(db0: DB, db1: DB, cfg: Config, ident: Seq<char>, r: ApiResponse)
    requires
        create_post(db0, db1, cfg, Some(ident), r),
        !db0.secret_map().contains_key(ident),
        db0.fresh_id() < i64::MAX,
    ensures
        r matches ApiResponse::Created { ident: rid, secret } && rid@ == ident
            && db1.secret_map().contains_key(ident) && db1.secret_map()[ident].1 == secret@
            && secret@.len() == b32_enc_len(cfg.secret_len as int),
        forall|k: Seq<char>|
            k != ident ==> #[trigger] db1.secret_map().contains_key(k)
                == db0.secret_map().contains_key(k),
        forall|k: Seq<char>|
            k != ident && db0.secret_map().contains_key(k) ==> #[trigger] db1.secret_map()[k]
                == db0.secret_map()[k],
{
}

/// A submitted code equal to the code derived for the current 30-second
/// step is reported verified, for any stored secret the deriver accepts,
/// from the first full step on.
pub proof fn lemma_verify_current_code(db: DB, ident: Seq<char>, now_secs: u64, r: ApiResponse)
    requires
        verify_post(
            db,
            Some(ident),
            Some(hotp_code(db.secret_map()[ident].1, now_secs / 30)),
            now_secs,
            r,
        ),
        db.secret_map().contains_key(ident),
        ga_secret_ok(db.secret_map()[ident].1),
        now_secs >= 30,
    ensures
        r == (ApiResponse::VerifyOutcome { verified: true }),
{
    lemma_current_code_accepted(db.secret_map()[ident].1, 0, now_secs / 30);
}

/// A submitted code that differs from the code of every step within the
/// (zero-) tolerance window is reported unverified — a wrong code is an
/// outcome, never an error.
pub proof fn lemma_verify_rejects_unmatched(
    db: DB,
    ident: Seq<char>,
    code: Seq<char>,
    now_secs: u64,
    r: ApiResponse,
)
    requires
        verify_post(db, Some(ident), Some(code), now_secs, r),
        db.secret_map().contains_key(ident),
        forall|s: u64|
            window_lo(now_secs / 30, 0) <= s <= window_hi(now_secs / 30, 0) ==> code
                != #[trigger] hotp_code(db.secret_map()[ident].1, s),
    ensures
        r == (ApiResponse::VerifyOutcome { verified: false }),
{
    lemma_out_of_window_code_rejected(db.secret_map()[ident].1, code, 0, now_secs / 30);
}

/// End to end: creating a fresh ident with a 10-to-80-byte secret length
/// and then verifying the code derived for the current step reports it
/// verified, while any code that differs from the current step's code — an
/// hour-old code, say, unless its six digits happen to coincide — is
/// reported unverified.
pub proof fn lemma_create_then_verify(
    db0: DB,
    db1: DB,
    cfg: Config,
    ident: Seq<char>,
    rc: ApiResponse,
    now_secs: u64,
    current: Seq<char>,
    stale: Seq<char>,
    rv: ApiResponse,
    rs: ApiResponse,
)
    requires
        create_post(db0, db1, cfg, Some(ident), rc),
        !db0.secret_map().contains_key(ident),
        db0.fresh_id() < i64::MAX,
        10 <= cfg.secret_len <= 80,
        now_secs >= 30,
        current == hotp_code(db1.secret_map()[ident].1, now_secs / 30),
        stale != current,
        verify_post(db1, Some(ident), Some(current), now_secs, rv),
        verify_post(db1, Some(ident), Some(stale), now_secs, rs),
    ensures
        rc matches ApiResponse::Created { ident: rid, secret } && rid@ == ident && secret@.len()
            == b32_enc_len(cfg.secret_len as int),
        rv == (ApiResponse::VerifyOutcome { verified: true }),
        rs == (ApiResponse::VerifyOutcome { verified: false }),
{
    let secret = db1.secret_map()[ident].1;
    assert(ga_secret_ok(secret));
    assert(now_secs / 30 >= 1);
    lemma_verify_current_code(db1, ident, now_secs, rv);
    assert forall|s: u64|
        window_lo(now_secs / 30, 0) <= s <= window_hi(now_secs / 30, 0) implies stale
        != hotp_code(secret, s) by {
        assert(s == now_secs / 30);
    }
    lemma_verify_rejects_unmatched(db1, ident, stale, now_secs, rs);
}

/// Creating the same ident twice: the first create stores its secret, the
/// second fails as a duplicate, and afterwards exactly the first record —
/// with its original secret — stands for the ident.
pub proof fn lemma_create_twice(
    db0: DB,
    db1: DB,
    db2: DB,
    cfg: Config,
    ident: Seq<char>,
    r1: ApiResponse,
    r2: ApiResponse,
)
    requires
        create_post(db0, db1, cfg, Some(ident), r1),
        create_post(db1, db2, cfg, Some(ident), r2),
        !db0.secret_map().contains_key(ident),
        db0.fresh_id() < i64::MAX,
    ensures
        r1 matches ApiResponse::Created { ident: rid, secret } && db2.secret_map().contains_key(
            ident,
        ) && db2.secret_map()[ident].1 == secret@,
        r2 matches ApiResponse::Failed { message } && message@
            == "Database error: duplicate entry"@,
        db2 == db1,
        forall|k: Seq<char>|
            k != ident ==> #[trigger] db2.secret_map().contains_key(k)
                == db0.secret_map().contains_key(k),
{
}

/// A request with no API key and one with an unrecognized key fail
/// distinctly inside the authorizer — `Missing` against `Invalid` — yet produce the
/// same caller-visible rejection, down to the message, and touch nothing.
pub proof fn lemma_auth_failure_uniform(
    db0: DB,
    db1a: DB,
    db1b: DB,
    cfg: Config,
    req_missing: ApiRequest,
    req_invalid: ApiRequest,
    now_a: u64,
    now_b: u64,
    ra: ApiResponse,
    rb: ApiResponse,
)
    requires
        handle_post(db0, db1a, cfg, req_missing, now_a, ra),
        req_missing.api_key is None,
        handle_post(db0, db1b, cfg, req_invalid, now_b, rb),
        req_invalid.api_key matches Some(k) && !db0.key_map().contains_key(k@),
    ensures
        AuthError::Missing != AuthError::Invalid,
        is_auth_rejection(ra),
        is_auth_rejection(rb),
        ra matches ApiResponse::Rejected { http_status: ha, error: ea } && (rb matches
        ApiResponse::Rejected { http_status: hb, error: eb } ==> ha == hb && ea@ == eb@),
        db1a == db0,
        db1b == db0,
{
}

} // verus!
