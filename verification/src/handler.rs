//! The request orchestrator: one authorize-then-execute entry point.
//!
//! A parsed request arrives as an [`ApiRequest`]; authorization validates its API
//! key against the store, the requested operation runs, and the outcome is
//! an [`ApiResponse`] ready to serialize. Every caller-visible message and
//! status is pinned down here.

use vstd::prelude::*;
use crate::auth::authorize;
use crate::base32::{b32_enc_len, b32_encode, is_b32_char};
use crate::config::Config;
use crate::error::{CreateError, DeleteError, InvalidReqBody};
use crate::qr::{ga_qr_code_svg, ga_qr_code_url, qr_renders, qr_svg_of, qr_url_of};
use crate::store::DB;
use crate::totp::{accepted, ga_secret_ok, generate_secret, now_unix_secs, verify_code_at};

verus! {

/// The closed set of operations a request can ask for.
#[derive(Clone, Copy, Debug, PartialEq, Eq, Structural)]
pub enum Endpoint {
    Create,
    Delete,
    Verify,
    Qr,
    QrUrl,
}

/// A parsed request: which operation, and the fields the body carried.
/// A field the body lacked is `None`; which fields an operation needs is
/// decided here, not by the parser.
pub struct ApiRequest {
    pub endpoint: Endpoint,
    pub api_key: Option<String>,
    pub ident: Option<String>,
    pub code: Option<String>,
    pub name: Option<String>,
    pub title: Option<String>,
}

/// The outcome handed back to the transport: a success payload per
/// operation, a domain failure (HTTP 200 with `status:false` and a
/// message), or an outright rejection with an HTTP status.
pub enum ApiResponse {
    /// `/create` succeeded: the one time the raw secret is caller-visible.
    Created { ident: String, secret: String },
    /// `/delete` succeeded (also for an ident that never existed).
    Deleted,
    /// `/verify` ran; a wrong code is `verified == false`, not an error.
    VerifyOutcome { verified: bool },
    /// `/qr` succeeded with an SVG rendering.
    QrSvg { qr_code: String },
    /// `/qr_url` succeeded with a chart URL.
    QrUrl { qr_code_url: String },
    /// A domain-level failure: HTTP 200 with `status:false` and a message.
    Failed { message: String },
    /// A transport-level rejection with its HTTP status.
    Rejected { http_status: u16, error: InvalidReqBody },
}

/// The view of an optional request field.
pub open spec fn opt_view(o: Option<&String>) -> Option<Seq<char>> {
    match o {
        Some(s) => Some(s@),
        None => None,
    }
}

/// The view of an owned optional request field.
pub open spec fn opt_string_view(o: Option<String>) -> Option<Seq<char>> {
    match o {
        Some(s) => Some(s@),
        None => None,
    }
}

/// A 400 rejection for a request missing a field its operation needs.
pub open spec fn is_param_rejection(r: ApiResponse) -> bool {
    r matches ApiResponse::Rejected { http_status, error } && http_status == 400u16 && error@
        == "Request parameters missing"@
}

/// A 400 rejection for a missing or unrecognized API key: deliberately one
/// message for both, so responses do not reveal which occurred.
pub open spec fn is_auth_rejection(r: ApiResponse) -> bool {
    r matches ApiResponse::Rejected { http_status, error } && http_status == 400u16 && error@
        == "Invalid api key"@
}

/// A 500 rejection for a store-level failure.
pub open spec fn is_store_rejection(r: ApiResponse) -> bool {
    r matches ApiResponse::Rejected { http_status, error } && http_status == 500u16 && error@
        == "Database error"@
}

/// The rejection for a request missing a field its operation needs.
pub fn params_rejection() -> (r: ApiResponse)
    ensures
        is_param_rejection(r),
{
    ApiResponse::Rejected {
        http_status: 400,
        error: InvalidReqBody::new("Request parameters missing"),
    }
}

/// The uniform rejection for a missing or unrecognized API key.
pub fn auth_rejection() -> (r: ApiResponse)
    ensures
        is_auth_rejection(r),
{
    ApiResponse::Rejected { http_status: 400, error: InvalidReqBody::new("Invalid api key") }
}

/// The rejection for a store-level failure.
pub fn store_rejection() -> (r: ApiResponse)
    ensures
        is_store_rejection(r),
{
    ApiResponse::Rejected { http_status: 500, error: InvalidReqBody::new("Database error") }
}

/// The domain failure shaping a failed lookup: "Invalid identity", the same
/// for verify and the QR operations, so callers cannot tell a bad ident
/// from a bad key in detail.
pub fn invalid_identity_response() -> (r: ApiResponse)
    ensures
        r matches ApiResponse::Failed { message } && message@ == "Invalid identity"@,
{
    ApiResponse::Failed { message: "Invalid identity".to_owned() }
}

/// The response for a create whose store insert came back as given: the
/// stored secret on success, the duplicate distinguished as a domain
/// failure, any other store failure as a 500.
pub fn create_response(ident: &String, secret: String, insert: Result<(), CreateError>) -> (r:
    ApiResponse)
    ensures
        insert is Ok ==> (r matches ApiResponse::Created { ident: rid, secret: rs } && rid@
            == ident@ && rs == secret),
        insert == Err::<(), CreateError>(CreateError::DuplicateIdent) ==> (r matches
        ApiResponse::Failed { message } && message@ == "Database error: duplicate entry"@),
        insert == Err::<(), CreateError>(CreateError::StoreFailure) ==> is_store_rejection(r),
{
    match insert {
        Ok(_) => ApiResponse::Created { ident: ident.clone(), secret },
        Err(CreateError::DuplicateIdent) => ApiResponse::Failed {
            message: "Database error: duplicate entry".to_owned(),
        },
        Err(CreateError::StoreFailure) => store_rejection(),
    }
}

/// The response for a delete whose store call came back as given: success
/// either way at the domain level, a store failure as a 500.
pub fn delete_response(outcome: Result<(), DeleteError>) -> (r: ApiResponse)
    ensures
        outcome is Ok ==> r == ApiResponse::Deleted,
        outcome is Err ==> is_store_rejection(r),
{
    match outcome {
        Ok(_) => ApiResponse::Deleted,
        Err(_) => store_rejection(),
    }
}

/// The response for a QR rendering that came back as given: the SVG when
/// the encoder rendered, the fixed domain failure when it refused.
pub fn qr_response(render: Option<String>) -> (r: ApiResponse)
    ensures
        render matches Some(svg) ==> (r matches ApiResponse::QrSvg { qr_code } && qr_code == svg),
        render is None ==> (r matches ApiResponse::Failed { message } && message@
            == "Failed to create qr code"@),
{
    match render {
        Some(svg) => ApiResponse::QrSvg { qr_code: svg },
        None => ApiResponse::Failed { message: "Failed to create qr code".to_owned() },
    }
}

/// Everything the create operation promises: a missing ident is rejected; a
/// present ident fails as a duplicate with the store untouched; otherwise a
/// fresh secret of the configured length is stored under the ident and
/// returned.
pub open spec fn create_post(
    db0: DB,
    db1: DB,
    cfg: Config,
    ident: Option<Seq<char>>,
    r: ApiResponse,
) -> bool {
    &&& db1.wf()
    &&& db1.key_map() == db0.key_map()
    &&& match ident {
        None => db1 == db0 && is_param_rejection(r),
        Some(id) => if db0.secret_map().contains_key(id) {
            &&& db1 == db0
            &&& r matches ApiResponse::Failed { message } && message@
                == "Database error: duplicate entry"@
        } else if db0.fresh_id() < i64::MAX {
            &&& r matches ApiResponse::Created { ident: rid, secret } && rid@ == id && secret@.len()
                == b32_enc_len(cfg.secret_len as int) && (forall|j: int|
                0 <= j < secret@.len() ==> is_b32_char(#[trigger] secret@[j])) && (exists|
                bytes: Seq<u8>,
            |
                bytes.len() == cfg.secret_len && secret@ == #[trigger] b32_encode(bytes)) && (10
                <= cfg.secret_len <= 80 ==> ga_secret_ok(secret@)) && db1.secret_map()
                == db0.secret_map().insert(id, (db0.fresh_id(), secret@))
            &&& db1.fresh_id() == db0.fresh_id() + 1
        } else {
            db1 == db0 && is_store_rejection(r)
        },
    }
}

/// Everything the delete operation promises: a missing ident is rejected;
/// otherwise the record for the ident — if any — is gone and nothing else
/// changed, with success either way.
pub open spec fn delete_post(db0: DB, db1: DB, ident: Option<Seq<char>>, r: ApiResponse) -> bool {
    &&& db1.wf()
    &&& db1.key_map() == db0.key_map()
    &&& db1.fresh_id() == db0.fresh_id()
    &&& match ident {
        None => db1 == db0 && is_param_rejection(r),
        Some(id) => r == ApiResponse::Deleted && db1.secret_map() == db0.secret_map().remove(id),
    }
}

/// Everything the verify operation promises: missing fields are rejected;
/// an unknown ident fails as an invalid identity; otherwise the outcome is
/// exactly whether the code is accepted for the stored secret at the
/// current 30-second step, with no tolerance.
pub open spec fn verify_post(
    db: DB,
    ident: Option<Seq<char>>,
    code: Option<Seq<char>>,
    now_secs: u64,
    r: ApiResponse,
) -> bool {
    match (ident, code) {
        (Some(id), Some(c)) => if db.secret_map().contains_key(id) {
            r matches ApiResponse::VerifyOutcome { verified } && verified == accepted(
                db.secret_map()[id].1,
                c,
                0,
                now_secs / 30,
            )
        } else {
            r matches ApiResponse::Failed { message } && message@ == "Invalid identity"@
        },
        _ => is_param_rejection(r),
    }
}

/// Everything the qr operation promises: missing fields are rejected; an
/// unknown ident fails as an invalid identity; otherwise, exactly when the
/// encoder accepts the assembled otpauth data, the SVG rendered from the
/// stored secret and the given label at the configured dimensions — and the
/// encoder's refusal as a domain failure otherwise.
pub open spec fn qr_post(
    db: DB,
    cfg: Config,
    ident: Option<Seq<char>>,
    name: Option<Seq<char>>,
    title: Option<Seq<char>>,
    r: ApiResponse,
) -> bool {
    match (ident, name, title) {
        (Some(id), Some(nm), Some(tl)) => if db.secret_map().contains_key(id) {
            if qr_renders(db.secret_map()[id].1, nm, tl) {
                r matches ApiResponse::QrSvg { qr_code } && qr_code@ == qr_svg_of(
                    db.secret_map()[id].1,
                    nm,
                    tl,
                    cfg.width,
                    cfg.height,
                )
            } else {
                r matches ApiResponse::Failed { message } && message@
                    == "Failed to create qr code"@
            }
        } else {
            r matches ApiResponse::Failed { message } && message@ == "Invalid identity"@
        },
        _ => is_param_rejection(r),
    }
}

/// Everything the qr_url operation promises: as for qr, but URL assembly
/// cannot fail, so a known ident always yields the chart URL.
pub open spec fn qr_url_post(
    db: DB,
    cfg: Config,
    ident: Option<Seq<char>>,
    name: Option<Seq<char>>,
    title: Option<Seq<char>>,
    r: ApiResponse,
) -> bool {
    match (ident, name, title) {
        (Some(id), Some(nm), Some(tl)) => if db.secret_map().contains_key(id) {
            r matches ApiResponse::QrUrl { qr_code_url } && qr_code_url@ == qr_url_of(
                db.secret_map()[id].1,
                nm,
                tl,
                cfg.width,
                cfg.height,
            )
        } else {
            r matches ApiResponse::Failed { message } && message@ == "Invalid identity"@
        },
        _ => is_param_rejection(r),
    }
}

/// Everything one request promises: a request whose key is absent or
/// unbound is rejected outright with the store untouched; an authorized
/// request behaves as its operation's own promise says.
pub open spec fn handle_post(
    db0: DB,
    db1: DB,
    cfg: Config,
    req: ApiRequest,
    now_secs: u64,
    r: ApiResponse,
) -> bool {
    &&& db1.wf()
    &&& db1.key_map() == db0.key_map()
    &&& match req.api_key {
        None => db1 == db0 && is_auth_rejection(r),
        Some(k) => if !db0.key_map().contains_key(k@) {
            db1 == db0 && is_auth_rejection(r)
        } else {
            match req.endpoint {
                Endpoint::Create => create_post(db0, db1, cfg, opt_string_view(req.ident), r),
                Endpoint::Delete => delete_post(db0, db1, opt_string_view(req.ident), r),
                Endpoint::Verify => db1 == db0 && verify_post(
                    db0,
                    opt_string_view(req.ident),
                    opt_string_view(req.code),
                    now_secs,
                    r,
                ),
                Endpoint::Qr => db1 == db0 && qr_post(
                    db0,
                    cfg,
                    opt_string_view(req.ident),
                    opt_string_view(req.name),
                    opt_string_view(req.title),
                    r,
                ),
                Endpoint::QrUrl => db1 == db0 && qr_url_post(
                    db0,
                    cfg,
                    opt_string_view(req.ident),
                    opt_string_view(req.name),
                    opt_string_view(req.title),
                    r,
                ),
            }
        },
    }
}

/// Checks that every field an operation needs was present in the body.
pub fn validate_params<T>(params: &[Option<T>]) -> (r: Result<(), InvalidReqBody>)
    ensures
        r is Ok <==> (forall|i: int| 0 <= i < params@.len() ==> params@[i] is Some),
        r matches Err(e) ==> e@ == "Request parameters missing"@,
{
    let n = params.len();
    let mut i: usize = 0;
    while i < n
        invariant
            n == params@.len(),
            i <= n,
            forall|j: int| 0 <= j < i ==> params@[j] is Some,
        decreases n - i,
    {
        if params[i].is_none() {
            return Err(InvalidReqBody::new("Request parameters missing"));
        }
        i = i + 1;
    }
    Ok(())
}

/// Creates a new secret for an ident: generates `cfg.secret_len` random
/// bytes, stores their base32 encoding under the ident, and returns it.
pub fn create(db: &mut DB, cfg: &Config, ident: Option<&String>) -> (r: ApiResponse)
    requires
        old(db).wf(),
        cfg.wf(),
    ensures
        create_post(*old(db), *final(db), *cfg, opt_view(ident), r),
{
    let id = match ident {
        None => {
            return params_rejection();
        },
        Some(s) => s,
    };
    let secret = generate_secret(cfg.secret_len);
    let insert = db.create_secret(id.as_str(), secret.as_str());
    create_response(id, secret, insert)
}

/// Deletes the secret for an ident; deleting an ident that never existed
/// succeeds all the same.
pub fn delete(db: &mut DB, ident: Option<&String>) -> (r: ApiResponse)
    requires
        old(db).wf(),
    ensures
        delete_post(*old(db), *final(db), opt_view(ident), r),
{
    let id = match ident {
        None => {
            return params_rejection();
        },
        Some(s) => s,
    };
    let outcome = db.delete_secret(id.as_str());
    delete_response(outcome)
}

/// Verifies a submitted code against the secret stored for an ident, at the
/// 30-second step of `now_secs`, with no tolerance.
pub fn verify(db: &DB, ident: Option<&String>, code: Option<&String>, now_secs: u64) -> (r:
    ApiResponse)
    requires
        db.wf(),
    ensures
        verify_post(*db, opt_view(ident), opt_view(code), now_secs, r),
{
    let (id, c) = match (ident, code) {
        (Some(i), Some(c)) => (i, c),
        _ => {
            return params_rejection();
        },
    };
    match db.get_secret(id.as_str()) {
        Err(_) => invalid_identity_response(),
        Ok((_record_id, secret)) => {
            let verified = verify_code_at(secret.as_str(), c.as_str(), 0, now_secs / 30);
            ApiResponse::VerifyOutcome { verified }
        },
    }
}

/// Gathers everything a QR request needs: the present fields, the stored
/// secret for the ident, and the configured dimensions; hands back the
/// failing response otherwise.
pub fn get_qr_data(
    db: &DB,
    cfg: &Config,
    ident: Option<&String>,
    name: Option<&String>,
    title: Option<&String>,
) -> (r: Result<(String, String, String, String, u32, u32), ApiResponse>)
    requires
        db.wf(),
        cfg.wf(),
    ensures
        match (opt_view(ident), opt_view(name), opt_view(title)) {
            (Some(id), Some(nm), Some(tl)) => if db.secret_map().contains_key(id) {
                r matches Ok(v) && v.0@ == id && v.1@ == nm && v.2@ == tl && v.3@
                    == db.secret_map()[id].1 && v.4 == cfg.width && v.5 == cfg.height
            } else {
                r matches Err(resp) && resp matches ApiResponse::Failed { message } && message@
                    == "Invalid identity"@
            },
            _ => r matches Err(resp) && is_param_rejection(resp),
        },
{
    let (id, nm, tl) = match (ident, name, title) {
        (Some(i), Some(n), Some(t)) => (i, n, t),
        _ => {
            return Err(params_rejection());
        },
    };
    match db.get_secret(id.as_str()) {
        Err(_) => Err(invalid_identity_response()),
        Ok((_record_id, secret)) => Ok(
            (id.clone(), nm.clone(), tl.clone(), secret, cfg.width, cfg.height),
        ),
    }
}

/// Renders the stored secret of an ident as an SVG QR snapshot.
pub fn qr(
    db: &DB,
    cfg: &Config,
    ident: Option<&String>,
    name: Option<&String>,
    title: Option<&String>,
) -> (r: ApiResponse)
    requires
        db.wf(),
        cfg.wf(),
    ensures
        qr_post(*db, *cfg, opt_view(ident), opt_view(name), opt_view(title), r),
{
    let (_id, nm, tl, secret, width, height) = match get_qr_data(db, cfg, ident, name, title) {
        Ok(v) => v,
        Err(resp) => {
            return resp;
        },
    };
    let render = ga_qr_code_svg(secret.as_str(), nm.as_str(), tl.as_str(), width, height);
    qr_response(render)
}

/// Assembles the chart URL for the stored secret of an ident.
pub fn qr_url(
    db: &DB,
    cfg: &Config,
    ident: Option<&String>,
    name: Option<&String>,
    title: Option<&String>,
) -> (r: ApiResponse)
    requires
        db.wf(),
        cfg.wf(),
    ensures
        qr_url_post(*db, *cfg, opt_view(ident), opt_view(name), opt_view(title), r),
{
    let (_id, nm, tl, secret, width, height) = match get_qr_data(db, cfg, ident, name, title) {
        Ok(v) => v,
        Err(resp) => {
            return resp;
        },
    };
    let url = ga_qr_code_url(secret.as_str(), nm.as_str(), tl.as_str(), width, height);
    ApiResponse::QrUrl { qr_code_url: url }
}

/// Handles one parsed request at a given wall-clock reading: the key
/// check first, then the requested operation.
pub fn handle_request_at(db: &mut DB, cfg: &Config, req: &ApiRequest, now_secs: u64) -> (r:
    ApiResponse)
    requires
        old(db).wf(),
        cfg.wf(),
    ensures
        handle_post(*old(db), *final(db), *cfg, *req, now_secs, r),
{
    match authorize(db, req.api_key.as_ref()) {
        Err(_) => auth_rejection(),
        Ok(_host) => match req.endpoint {
            Endpoint::Create => create(db, cfg, req.ident.as_ref()),
            Endpoint::Delete => delete(db, req.ident.as_ref()),
            Endpoint::Verify => verify(db, req.ident.as_ref(), req.code.as_ref(), now_secs),
            Endpoint::Qr => qr(db, cfg, req.ident.as_ref(), req.name.as_ref(), req.title.as_ref()),
            Endpoint::QrUrl => qr_url(
                db,
                cfg,
                req.ident.as_ref(),
                req.name.as_ref(),
                req.title.as_ref(),
            ),
        },
    }
}

/// Handles one parsed request against the wall clock. Which 30-second step
/// the clock yields is outside the contract; every outcome satisfies the
/// request's promise at some step.
pub fn handle_request(db: &mut DB, cfg: &Config, req: &ApiRequest) -> (r: ApiResponse)
    requires
        old(db).wf(),
        cfg.wf(),
    ensures
        exists|now_secs: u64| #[trigger] handle_post(*old(db), *final(db), *cfg, *req, now_secs, r),
{
    let now = now_unix_secs();
    let r = handle_request_at(db, cfg, req, now);
    proof {
        assert(handle_post(*old(db), *db, *cfg, *req, now, r));
    }
    r
}

} // verus!
