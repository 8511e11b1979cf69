//! The credential store: API-key bindings and TOTP secret records.
//!
//! Both tables enforce uniqueness of their key column — `ident` for secret
//! records, `api_key` for bindings — and every operation is specified
//! against a map view of the table, so callers reason about idents and
//! secrets, never about row positions.

use vstd::prelude::*;
use crate::error::{CreateError, DeleteError, KeyStoreError, LookupError};

verus! {

/// One stored TOTP secret: the store-assigned numeric id, the ident it is
/// registered under (unique across records), and the base32 secret.
pub struct SecretRecord {
    pub id: i64,
    pub ident: String,
    pub secret: String,
}

/// One API-key binding: the owning host and the opaque key (unique across
/// bindings).
pub struct ApiKeyBinding {
    pub host: String,
    pub api_key: String,
}

/// Whether some record of `s` is registered under `k`.
pub open spec fn secrets_has(s: Seq<SecretRecord>, k: Seq<char>) -> bool {
    exists|i: int| 0 <= i < s.len() && (#[trigger] s[i]).ident@ == k
}

/// The position of the record registered under `k` (unique when idents are).
pub open spec fn secrets_idx(s: Seq<SecretRecord>, k: Seq<char>) -> int {
    choose|i: int| 0 <= i < s.len() && (#[trigger] s[i]).ident@ == k
}

/// The record table as a map from ident to (id, secret).
pub open spec fn secrets_as_map(s: Seq<SecretRecord>) -> Map<Seq<char>, (i64, Seq<char>)> {
    Map::new(
        |k: Seq<char>| secrets_has(s, k),
        |k: Seq<char>| (s[secrets_idx(s, k)].id, s[secrets_idx(s, k)].secret@),
    )
}

/// No two records share an ident.
pub open spec fn secrets_unique(s: Seq<SecretRecord>) -> bool {
    forall|i: int, j: int|
        0 <= i < j < s.len() ==> (#[trigger] s[i]).ident@ != (#[trigger] s[j]).ident@
}

/// Whether some binding of `s` carries the key `k`.
pub open spec fn keys_has(s: Seq<ApiKeyBinding>, k: Seq<char>) -> bool {
    exists|i: int| 0 <= i < s.len() && (#[trigger] s[i]).api_key@ == k
}

/// The position of the binding carrying `k` (unique when keys are).
pub open spec fn keys_idx(s: Seq<ApiKeyBinding>, k: Seq<char>) -> int {
    choose|i: int| 0 <= i < s.len() && (#[trigger] s[i]).api_key@ == k
}

/// The binding table as a map from API key to host.
pub open spec fn keys_as_map(s: Seq<ApiKeyBinding>) -> Map<Seq<char>, Seq<char>> {
    Map::new(|k: Seq<char>| keys_has(s, k), |k: Seq<char>| s[keys_idx(s, k)].host@)
}

/// No two bindings share a key.
pub open spec fn keys_unique(s: Seq<ApiKeyBinding>) -> bool {
    forall|i: int, j: int|
        0 <= i < j < s.len() ==> (#[trigger] s[i]).api_key@ != (#[trigger] s[j]).api_key@
}

/// The credential store. Secret records are keyed by ident, API-key
/// bindings by key; both key columns are unique and record ids stay below
/// the next id to be assigned.
pub struct DB {
    secrets: Vec<SecretRecord>,
    keys: Vec<ApiKeyBinding>,
    next_id: i64,
}

impl DB {
    /// The secret table, as a map from ident to (id, secret).
    pub closed spec fn secret_map(self) -> Map<Seq<char>, (i64, Seq<char>)> {
        secrets_as_map(self.secrets@)
    }

    /// The binding table, as a map from API key to host.
    pub closed spec fn key_map(self) -> Map<Seq<char>, Seq<char>> {
        keys_as_map(self.keys@)
    }

    /// The id the next created record will receive.
    pub closed spec fn fresh_id(self) -> i64 {
        self.next_id
    }

    /// Well-formedness: unique idents, unique keys, and every stored id
    /// below the next one.
    pub closed spec fn wf(self) -> bool {
        &&& secrets_unique(self.secrets@)
        &&& keys_unique(self.keys@)
        &&& forall|i: int| 0 <= i < self.secrets@.len() ==> (#[trigger] self.secrets@[i]).id
            < self.next_id
        &&& self.next_id >= 1
    }

    /// Opens an empty store.
    pub fn new() -> (r: Self)
        ensures
            r.wf(),
            r.secret_map() =~= Map::<Seq<char>, (i64, Seq<char>)>::empty(),
            r.key_map() =~= Map::<Seq<char>, Seq<char>>::empty(),
            r.fresh_id() == 1,
    {
        let r = DB { secrets: Vec::new(), keys: Vec::new(), next_id: 1 };
        proof {
            assert(r.secret_map() =~= Map::<Seq<char>, (i64, Seq<char>)>::empty());
            assert(r.key_map() =~= Map::<Seq<char>, Seq<char>>::empty());
        }
        r
    }

    /// Stores a new API-key binding. Fails exactly when the key is already
    /// bound; the secret table is never touched.
    pub fn add_api_key(&mut self, host: &str, api_key: &str) -> (r: Result<(), KeyStoreError>)
        requires
            old(self).wf(),
        ensures
            final(self).wf(),
            final(self).secret_map() == old(self).secret_map(),
            final(self).fresh_id() == old(self).fresh_id(),
            r is Ok <==> !old(self).key_map().contains_key(api_key@),
            r is Ok ==> final(self).key_map() =~= old(self).key_map().insert(api_key@, host@),
            r is Err ==> *final(self) == *old(self) && r == Err::<(), KeyStoreError>(
                KeyStoreError::DuplicateKey,
            ),
    {
        let key: String = api_key.to_owned();
        let n = self.keys.len();
        let mut i: usize = 0;
        while i < n
            invariant
                n == self.keys@.len(),
                i <= n,
                key@ == api_key@,
                old(self).wf(),
                *self == *old(self),
                forall|j: int| 0 <= j < i ==> (#[trigger] self.keys@[j]).api_key@ != api_key@,
            decreases n - i,
        {
            if self.keys[i].api_key == key {
                proof {
                    assert(keys_has(self.keys@, api_key@));
                }
                return Err(KeyStoreError::DuplicateKey);
            }
            i = i + 1;
        }
        proof {
            assert(!keys_has(self.keys@, api_key@));
        }
        let ghost old_keys = self.keys@;
        let binding = ApiKeyBinding { host: host.to_owned(), api_key: key };
        self.keys.push(binding);
        proof {
            lemma_keys_push(old_keys, self.keys@[old_keys.len() as int]);
            assert(self.secrets@ == old(self).secrets@);
        }
        Ok(())
    }

    /// Whether any binding carries this key.
    pub fn api_key_exists(&self, api_key: &str) -> (r: bool)
        ensures
            r == self.key_map().contains_key(api_key@),
    {
        let key: String = api_key.to_owned();
        let n = self.keys.len();
        let mut i: usize = 0;
        while i < n
            invariant
                n == self.keys@.len(),
                i <= n,
                key@ == api_key@,
                forall|j: int| 0 <= j < i ==> (#[trigger] self.keys@[j]).api_key@ != api_key@,
            decreases n - i,
        {
            if self.keys[i].api_key == key {
                proof {
                    assert(keys_has(self.keys@, api_key@));
                }
                return true;
            }
            i = i + 1;
        }
        proof {
            assert(!keys_has(self.keys@, api_key@));
        }
        false
    }

    /// The host a key is bound to. Fails exactly when the key is unbound.
    pub fn get_host_for_api_key(&self, api_key: &str) -> (r: Result<String, LookupError>)
        requires
            self.wf(),
        ensures
            r is Ok <==> self.key_map().contains_key(api_key@),
            r matches Ok(h) ==> h@ == self.key_map()[api_key@],
            r matches Err(e) ==> e == LookupError::NotFound,
    {
        let key: String = api_key.to_owned();
        let n = self.keys.len();
        let mut i: usize = 0;
        while i < n
            invariant
                n == self.keys@.len(),
                i <= n,
                key@ == api_key@,
                self.wf(),
                forall|j: int| 0 <= j < i ==> (#[trigger] self.keys@[j]).api_key@ != api_key@,
            decreases n - i,
        {
            if self.keys[i].api_key == key {
                proof {
                    assert(keys_has(self.keys@, api_key@));
                    let w = keys_idx(self.keys@, api_key@);
                    assert(0 <= w < self.keys@.len() && self.keys@[w].api_key@ == api_key@);
                    if w != i {
                        assert(false);
                    }
                }
                return Ok(self.keys[i].host.clone());
            }
            i = i + 1;
        }
        proof {
            assert(!keys_has(self.keys@, api_key@));
        }
        Err(LookupError::NotFound)
    }

    /// Inserts a record for `ident`. Fails with `DuplicateIdent` exactly
    /// when a record for `ident` already exists (the store stays unchanged),
    /// and with `StoreFailure` only when the id space is exhausted; the
    /// binding table is never touched.
    pub fn create_secret(&mut self, ident: &str, secret: &str) -> (r: Result<(), CreateError>)
        requires
            old(self).wf(),
        ensures
            final(self).wf(),
            final(self).key_map() == old(self).key_map(),
            old(self).secret_map().contains_key(ident@) ==> r == Err::<(), CreateError>(
                CreateError::DuplicateIdent,
            ) && *final(self) == *old(self),
            !old(self).secret_map().contains_key(ident@) && old(self).fresh_id() < i64::MAX ==> r
                == Ok::<(), CreateError>(()) && final(self).secret_map() =~= old(self).secret_map()
                .insert(ident@, (old(self).fresh_id(), secret@)) && final(self).fresh_id() == old(
                self).fresh_id() + 1,
            !old(self).secret_map().contains_key(ident@) && old(self).fresh_id() == i64::MAX ==> r
                == Err::<(), CreateError>(CreateError::StoreFailure) && *final(self) == *old(self),
    {
        let key: String = ident.to_owned();
        let n = self.secrets.len();
        let mut i: usize = 0;
        while i < n
            invariant
                n == self.secrets@.len(),
                i <= n,
                key@ == ident@,
                old(self).wf(),
                *self == *old(self),
                forall|j: int| 0 <= j < i ==> (#[trigger] self.secrets@[j]).ident@ != ident@,
            decreases n - i,
        {
            if self.secrets[i].ident == key {
                proof {
                    assert(secrets_has(self.secrets@, ident@));
                }
                return Err(CreateError::DuplicateIdent);
            }
            i = i + 1;
        }
        proof {
            assert(!secrets_has(self.secrets@, ident@));
        }
        if self.next_id == i64::MAX {
            return Err(CreateError::StoreFailure);
        }
        let ghost old_secrets = self.secrets@;
        let id = self.next_id;
        self.next_id = id + 1;
        let record = SecretRecord { id, ident: key, secret: secret.to_owned() };
        self.secrets.push(record);
        proof {
            lemma_secrets_push(old_secrets, self.secrets@[old_secrets.len() as int]);
            assert(self.keys@ == old(self).keys@);
        }
        Ok(())
    }

    /// Removes the record for `ident`, if any. Removing an absent ident
    /// succeeds all the same; no other record and no binding is touched.
    pub fn delete_secret(&mut self, ident: &str) -> (r: Result<(), DeleteError>)
        requires
            old(self).wf(),
        ensures
            final(self).wf(),
            final(self).key_map() == old(self).key_map(),
            final(self).fresh_id() == old(self).fresh_id(),
            r is Ok,
            final(self).secret_map() =~= old(self).secret_map().remove(ident@),
    {
        let key: String = ident.to_owned();
        let n = self.secrets.len();
        let mut i: usize = 0;
        while i < n
            invariant
                n == self.secrets@.len(),
                i <= n,
                key@ == ident@,
                old(self).wf(),
                *self == *old(self),
                forall|j: int| 0 <= j < i ==> (#[trigger] self.secrets@[j]).ident@ != ident@,
            decreases n - i,
        {
            if self.secrets[i].ident == key {
                proof {
                    lemma_secrets_remove(self.secrets@, i as int);
                }
                self.secrets.remove(i);
                return Ok(());
            }
            i = i + 1;
        }
        proof {
            assert(!secrets_has(self.secrets@, ident@));
            assert(!self.secret_map().contains_key(ident@));
            assert(self.secret_map() =~= self.secret_map().remove(ident@));
        }
        Ok(())
    }

    /// The id and secret registered under `ident`. Fails exactly when no
    /// record matches.
    pub fn get_secret(&self, ident: &str) -> (r: Result<(i64, String), LookupError>)
        requires
            self.wf(),
        ensures
            r is Ok <==> self.secret_map().contains_key(ident@),
            r matches Ok(v) ==> v.0 == self.secret_map()[ident@].0 && v.1@
                == self.secret_map()[ident@].1,
            r matches Err(e) ==> e == LookupError::NotFound,
    {
        let key: String = ident.to_owned();
        let n = self.secrets.len();
        let mut i: usize = 0;
        while i < n
            invariant
                n == self.secrets@.len(),
                i <= n,
                key@ == ident@,
                self.wf(),
                forall|j: int| 0 <= j < i ==> (#[trigger] self.secrets@[j]).ident@ != ident@,
            decreases n - i,
        {
            if self.secrets[i].ident == key {
                proof {
                    assert(secrets_has(self.secrets@, ident@));
                    let w = secrets_idx(self.secrets@, ident@);
                    assert(0 <= w < self.secrets@.len() && self.secrets@[w].ident@ == ident@);
                    if w != i {
                        assert(false);
                    }
                }
                return Ok((self.secrets[i].id, self.secrets[i].secret.clone()));
            }
            i = i + 1;
        }
        proof {
            assert(!secrets_has(self.secrets@, ident@));
        }
        Err(LookupError::NotFound)
    }

    /// The ident and secret of the record with a given id. Fails exactly
    /// when no record carries the id.
    pub fn get_secret_by_id(&self, id: i64) -> (r: Result<(String, String), LookupError>)
        requires
            self.wf(),
        ensures
            r is Ok <==> exists|k: Seq<char>|
                self.secret_map().contains_key(k) && (#[trigger] self.secret_map()[k]).0 == id,
            r matches Ok(v) ==> self.secret_map().contains_key(v.0@) && self.secret_map()[v.0@].0
                == id && self.secret_map()[v.0@].1 == v.1@,
            r matches Err(e) ==> e == LookupError::NotFound,
    {
        let n = self.secrets.len();
        let mut i: usize = 0;
        while i < n
            invariant
                n == self.secrets@.len(),
                i <= n,
                self.wf(),
                forall|j: int| 0 <= j < i ==> (#[trigger] self.secrets@[j]).id != id,
            decreases n - i,
        {
            if self.secrets[i].id == id {
                proof {
                    let k = self.secrets@[i as int].ident@;
                    assert(secrets_has(self.secrets@, k));
                    let w = secrets_idx(self.secrets@, k);
                    assert(0 <= w < self.secrets@.len() && self.secrets@[w].ident@ == k);
                    if w != i {
                        assert(false);
                    }
                    assert(self.secret_map().contains_key(k) && self.secret_map()[k].0 == id);
                }
                return Ok((self.secrets[i].ident.clone(), self.secrets[i].secret.clone()));
            }
            i = i + 1;
        }
        proof {
            assert forall|k: Seq<char>|
                self.secret_map().contains_key(k) implies (#[trigger] self.secret_map()[k]).0
                != id by {
                let w = secrets_idx(self.secrets@, k);
                assert(0 <= w < self.secrets@.len() && self.secrets@[w].ident@ == k);
            }
        }
        Err(LookupError::NotFound)
    }
}

/// Whether a relational store's error code names a uniqueness violation —
/// the one store failure that callers must see as "duplicate entry" rather
/// than as a generic failure.
pub fn is_unique_violation(code: &str) -> (r: bool)
    ensures
        r == (code@ == "23505"@),
{
    let c: String = code.to_owned();
    let v: String = "23505".to_owned();
    c == v
}

/// Appending a record whose ident is fresh extends the map view by exactly
/// that ident.
proof fn lemma_secrets_push(s: Seq<SecretRecord>, rec: SecretRecord)
    requires
        !secrets_has(s, rec.ident@),
        secrets_unique(s),
    ensures
        secrets_as_map(s.push(rec)) =~= secrets_as_map(s).insert(rec.ident@, (rec.id, rec.secret@)),
        secrets_unique(s.push(rec)),
{
    let t = s.push(rec);
    assert forall|i: int, j: int|
        0 <= i < j < t.len() implies (#[trigger] t[i]).ident@ != (#[trigger] t[j]).ident@ by {
        if j < s.len() {
            assert(t[i] == s[i] && t[j] == s[j]);
        } else {
            assert(t[j] == rec);
            assert(t[i] == s[i]);
            if t[i].ident@ == rec.ident@ {
                assert(secrets_has(s, rec.ident@));
            }
        }
    }
    let m1 = secrets_as_map(t);
    let m2 = secrets_as_map(s).insert(rec.ident@, (rec.id, rec.secret@));
    assert forall|k: Seq<char>| #[trigger] m1.contains_key(k) implies m2.contains_key(k) && m1[k]
        == m2[k] by {
        let w = secrets_idx(t, k);
        assert(0 <= w < t.len() && t[w].ident@ == k);
        if k == rec.ident@ {
            if w < s.len() {
                assert(s[w] == t[w]);
                assert(secrets_has(s, rec.ident@));
            }
            assert(t[w] == rec);
        } else {
            assert(w < s.len());
            assert(s[w] == t[w]);
            assert(secrets_has(s, k));
            let u = secrets_idx(s, k);
            assert(0 <= u < s.len() && s[u].ident@ == k);
            if u < w {
                assert(s[u].ident@ != s[w].ident@);
            } else if w < u {
                assert(s[w].ident@ != s[u].ident@);
            }
            assert(u == w);
            assert(m1[k] == (t[w].id, t[w].secret@));
        }
    }
    assert forall|k: Seq<char>| #[trigger] m2.contains_key(k) implies m1.contains_key(k) by {
        if k == rec.ident@ {
            assert(t[s.len() as int] == rec);
            assert(secrets_has(t, k));
        } else {
            let u = secrets_idx(s, k);
            assert(0 <= u < s.len() && s[u].ident@ == k);
            assert(t[u].ident@ == k);
            assert(secrets_has(t, k));
        }
    }
}

/// Removing the record at a position removes exactly its ident from the map
/// view, provided idents are unique.
proof fn lemma_secrets_remove(s: Seq<SecretRecord>, at: int)
    requires
        secrets_unique(s),
        0 <= at < s.len(),
    ensures
        secrets_as_map(s.remove(at)) =~= secrets_as_map(s).remove(s[at].ident@),
        secrets_unique(s.remove(at)),
{
    let t = s.remove(at);
    let m1 = secrets_as_map(t);
    let m2 = secrets_as_map(s).remove(s[at].ident@);
    assert forall|i: int, j: int|
        0 <= i < j < t.len() implies (#[trigger] t[i]).ident@ != (#[trigger] t[j]).ident@ by {
        let i0 = if i < at {
            i
        } else {
            i + 1
        };
        let j0 = if j < at {
            j
        } else {
            j + 1
        };
        assert(t[i] == s[i0] && t[j] == s[j0]);
    }
    assert forall|k: Seq<char>| #[trigger] m1.contains_key(k) implies m2.contains_key(k) && m1[k]
        == m2[k] by {
        let w = secrets_idx(t, k);
        assert(0 <= w < t.len() && t[w].ident@ == k);
        let w0 = if w < at {
            w
        } else {
            w + 1
        };
        assert(t[w] == s[w0]);
        assert(secrets_has(s, k));
        if k == s[at].ident@ {
            assert(s[w0].ident@ == s[at].ident@ && w0 != at);
            assert(false);
        }
        let u = secrets_idx(s, k);
        assert(0 <= u < s.len() && s[u].ident@ == k);
        assert(u == w0);
        assert(m1[k] == (t[w].id, t[w].secret@));
    }
    assert forall|k: Seq<char>| #[trigger] m2.contains_key(k) implies m1.contains_key(k) by {
        let u = secrets_idx(s, k);
        assert(0 <= u < s.len() && s[u].ident@ == k);
        assert(u != at);
        let u1 = if u < at {
            u
        } else {
            u - 1
        };
        assert(t[u1] == s[u]);
        assert(secrets_has(t, k));
    }
}

/// Appending a binding whose key is fresh extends the map view by exactly
/// that key.
proof fn lemma_keys_push(s: Seq<ApiKeyBinding>, b: ApiKeyBinding)
    requires
        !keys_has(s, b.api_key@),
        keys_unique(s),
    ensures
        keys_as_map(s.push(b)) =~= keys_as_map(s).insert(b.api_key@, b.host@),
        keys_unique(s.push(b)),
{
    let t = s.push(b);
    assert forall|i: int, j: int|
        0 <= i < j < t.len() implies (#[trigger] t[i]).api_key@ != (#[trigger] t[j]).api_key@ by {
        if j < s.len() {
            assert(t[i] == s[i] && t[j] == s[j]);
        } else {
            assert(t[j] == b);
            assert(t[i] == s[i]);
            if t[i].api_key@ == b.api_key@ {
                assert(keys_has(s, b.api_key@));
            }
        }
    }
    let m1 = keys_as_map(t);
    let m2 = keys_as_map(s).insert(b.api_key@, b.host@);
    assert forall|k: Seq<char>| #[trigger] m1.contains_key(k) implies m2.contains_key(k) && m1[k]
        == m2[k] by {
        let w = keys_idx(t, k);
        assert(0 <= w < t.len() && t[w].api_key@ == k);
        if k == b.api_key@ {
            if w < s.len() {
                assert(s[w] == t[w]);
                assert(keys_has(s, b.api_key@));
            }
            assert(t[w] == b);
        } else {
            assert(w < s.len());
            assert(s[w] == t[w]);
            assert(keys_has(s, k));
            let u = keys_idx(s, k);
            assert(0 <= u < s.len() && s[u].api_key@ == k);
            if u < w {
                assert(s[u].api_key@ != s[w].api_key@);
            } else if w < u {
                assert(s[w].api_key@ != s[u].api_key@);
            }
            assert(u == w);
            assert(m1[k] == t[w].host@);
        }
    }
    assert forall|k: Seq<char>| #[trigger] m2.contains_key(k) implies m1.contains_key(k) by {
        if k == b.api_key@ {
            assert(t[s.len() as int] == b);
            assert(keys_has(t, k));
        } else {
            let u = keys_idx(s, k);
            assert(0 <= u < s.len() && s[u].api_key@ == k);
            assert(t[u].api_key@ == k);
            assert(keys_has(t, k));
        }
    }
}

} // verus!
