//! The TOTP engine: secret generation and time-based code verification.
//!
//! Code derivation itself (HMAC-SHA1 with dynamic truncation, RFC 4226/6238)
//! is performed by the `google_authenticator` crate behind a trusted wrapper;
//! everything around it — the window walk, the constant-time comparison, the
//! secret generation — is verified here.

use vstd::prelude::*;
use vstd::string::StrSliceExecFns;
use crate::base32::{b32_encode, b32_enc_len, is_b32_char, base32_encode,
    lemma_b32_encode_chars};

verus! {

/// A character that base32 decoding (RFC 4648 alphabet, as the code deriver
/// applies it) accepts: letters of either case, the digits 2 to 7, or `=`.
pub open spec fn is_b32_decodable_char(c: char) -> bool {
    ('A' <= c && c <= 'Z') || ('a' <= c && c <= 'z') || ('2' <= c && c <= '7') || c == '='
}

/// A secret string the code deriver accepts: 16 to 128 characters, all
/// base32-decodable. (Such a string is ASCII, so its character and byte
/// lengths agree.)
pub open spec fn ga_secret_ok(s: Seq<char>) -> bool {
    &&& 16 <= s.len() <= 128
    &&& forall|i: int| 0 <= i < s.len() ==> is_b32_decodable_char(#[trigger] s[i])
}

/// The 6-digit one-time code derived for a secret at a 30-second time step.
/// Named only: the definition is RFC 4226's HMAC-SHA1 dynamic truncation,
/// which only the deriving library computes.
pub uninterp spec fn hotp_code(secret: Seq<char>, slice: u64) -> Seq<char>;

/// Relies on `GoogleAuthenticator::new` (6-digit codes) and
/// `GoogleAuthenticator::get_code`: for a nonzero time step the code is
/// derived from the secret and the step alone, and derivation fails exactly
/// when the secret is not 16 to 128 base32-decodable characters.
#[verifier::external_body]
fn ga_code_at(secret: &str, slice: u64) -> (r: Option<String>)
    requires
        slice >= 1,
    ensures
        r is Some <==> ga_secret_ok(secret@),
        r matches Some(c) ==> c@ == hotp_code(secret@, slice) && c@.len() == 6,
{
    google_authenticator::GoogleAuthenticator::new().get_code(secret, slice).ok()
}

/// Relies on `std::time::SystemTime::now`: seconds since the Unix epoch, or
/// zero if the clock reads before it. Nothing is assumed of the value.
#[verifier::external_body]
pub(crate) fn now_unix_secs() -> u64 {
    match std::time::SystemTime::now().duration_since(std::time::UNIX_EPOCH) {
        Ok(d) => d.as_secs(),
        Err(_) => 0,
    }
}

/// Relies on rand's `thread_rng` and `RngCore::fill_bytes`: fills a buffer
/// of the requested length with random bytes. Nothing is assumed of the
/// values.
#[verifier::external_body]
fn fill_random_bytes(n: usize) -> (r: Vec<u8>)
    ensures
        r@.len() == n,
{
    let mut buf = vec![0u8; n];
    rand::RngCore::fill_bytes(&mut rand::thread_rng(), &mut buf);
    buf
}

/// Compares two strings for equality in time that depends only on their
/// lengths, never on the position of the first differing character: the
/// comparison walks every position of equal-length inputs.
pub fn constant_time_eq(a: &str, b: &str) -> (r: bool)
    ensures
        r == (a@ == b@),
{
    let la = a.unicode_len();
    let lb = b.unicode_len();
    if la != lb {
        return false;
    }
    let mut acc: u32 = 0;
    let mut i: usize = 0;
    while i < la
        invariant
            la == a@.len(),
            la == b@.len(),
            i <= la,
            (acc == 0) == (forall|j: int| 0 <= j < i ==> a@[j] == b@[j]),
        decreases la - i,
    {
        let ca = a.get_char(i);
        let cb = b.get_char(i);
        let d = (ca as u32) ^ (cb as u32);
        proof {
            lemma_or_xor_zero(acc, ca as u32, cb as u32);
        }
        acc = acc | d;
        i = i + 1;
        proof {
            if acc == 0 {
                assert(forall|j: int| 0 <= j < i ==> a@[j] == b@[j]);
            } else {
                assert(!(forall|j: int| 0 <= j < i ==> a@[j] == b@[j]));
            }
        }
    }
    proof {
        if acc == 0 {
            assert(a@ =~= b@);
        }
    }
    acc == 0
}

/// Accumulating a XOR of two words into `acc` with OR leaves `acc` zero
/// exactly when it was zero and the words agree.
proof fn lemma_or_xor_zero(acc: u32, x: u32, y: u32)
    ensures
        (acc | (x ^ y)) == 0 <==> (acc == 0 && x == y),
{
    assert((acc | (x ^ y)) == 0 <==> (acc == 0 && x == y)) by (bit_vector);
}

/// The lowest time step verification tries: `tolerance` steps below `slice`,
/// but never step 0, which the deriver reads as "now".
pub open spec fn window_lo(slice: u64, tolerance: u64) -> int {
    if slice - tolerance >= 1 {
        slice - tolerance
    } else {
        1
    }
}

/// The highest time step verification tries: `tolerance` steps above
/// `slice`, saturating at the largest step.
pub open spec fn window_hi(slice: u64, tolerance: u64) -> int {
    if slice + tolerance <= u64::MAX {
        slice + tolerance
    } else {
        u64::MAX as int
    }
}

/// Whether verification accepts `code` for `secret` at time step `slice`:
/// the secret is acceptable to the deriver, and the code equals the code
/// derived at some step within `tolerance` steps of `slice`.
pub open spec fn accepted(secret: Seq<char>, code: Seq<char>, tolerance: u64, slice: u64) -> bool {
    &&& ga_secret_ok(secret)
    &&& exists|s: u64|
        window_lo(slice, tolerance) <= s <= window_hi(slice, tolerance) && code == #[trigger] hotp_code(
            secret,
            s,
        )
}

/// Checks a submitted code against the stored secret at the given time step,
/// accepting the code of any step within `tolerance` steps either side.
pub fn verify_code_at(secret: &str, code: &str, tolerance: u64, slice: u64) -> (r: bool)
    ensures
        r == accepted(secret@, code@, tolerance, slice),
{
    let lo = if slice > tolerance {
        slice - tolerance
    } else {
        1
    };
    let hi = if slice <= u64::MAX - tolerance {
        slice + tolerance
    } else {
        u64::MAX
    };
    let count = if lo <= hi {
        hi - lo + 1
    } else {
        0
    };
    let mut k: u64 = 0;
    while k < count
        invariant
            lo as int == window_lo(slice, tolerance),
            hi as int == window_hi(slice, tolerance),
            count as int == if lo <= hi {
                hi - lo + 1
            } else {
                0
            },
            lo >= 1,
            k <= count,
            k > 0 ==> ga_secret_ok(secret@),
            forall|t: u64| lo <= t < lo + k ==> code@ != #[trigger] hotp_code(secret@, t),
        decreases count - k,
    {
        let s = lo + k;
        match ga_code_at(secret, s) {
            None => {
                return false;
            },
            Some(c) => {
                if constant_time_eq(code, c.as_str()) {
                    proof {
                        assert(window_lo(slice, tolerance) <= s <= window_hi(slice, tolerance)
                            && code@ == hotp_code(secret@, s));
                    }
                    return true;
                }
            },
        }
        k = k + 1;
    }
    proof {
        if count > 0 {
            assert(ga_secret_ok(secret@));
            assert forall|s: u64|
                window_lo(slice, tolerance) <= s <= window_hi(slice, tolerance) implies code@
                != hotp_code(secret@, s) by {
                assert(lo <= s < lo + count);
            }
        }
    }
    false
}

/// Checks a submitted code against the wall clock's current 30-second step,
/// accepting codes within `tolerance` steps either side of it. Which step
/// the clock yields is outside the contract; what holds of every outcome is
/// stated.
pub fn verify_code(secret: &str, code: &str, tolerance: u64) -> (r: bool)
    ensures
        exists|slice: u64| r == #[trigger] accepted(secret@, code@, tolerance, slice),
{
    let now = now_unix_secs();
    let slice = now / 30;
    let r = verify_code_at(secret, code, tolerance, slice);
    proof {
        assert(r == accepted(secret@, code@, tolerance, slice));
    }
    r
}

/// Generates a fresh shared secret of `byte_len` random bytes, base32
/// encoded without padding: one character for every five bits.
pub fn generate_secret(byte_len: u8) -> (r: String)
    requires
        byte_len >= 1,
    ensures
        r@.len() == b32_enc_len(byte_len as int),
        forall|j: int| 0 <= j < r@.len() ==> is_b32_char(#[trigger] r@[j]),
        exists|bytes: Seq<u8>| bytes.len() == byte_len && r@ == #[trigger] b32_encode(bytes),
        10 <= byte_len <= 80 ==> ga_secret_ok(r@),
{
    let bytes = fill_random_bytes(byte_len as usize);
    let r = base32_encode(&bytes);
    proof {
        lemma_b32_encode_chars(bytes@);
        assert(bytes@.len() == byte_len && r@ == b32_encode(bytes@));
        if 10 <= byte_len <= 80 {
            lemma_encoded_secret_ok(r@, byte_len as int);
        }
    }
    r
}

/// A base32-encoded secret of 10 to 80 bytes is acceptable to the code
/// deriver: its length lands in 16 to 128 and its characters decode.
proof fn lemma_encoded_secret_ok(s: Seq<char>, n: int)
    requires
        10 <= n <= 80,
        s.len() == b32_enc_len(n),
        forall|j: int| 0 <= j < s.len() ==> is_b32_char(#[trigger] s[j]),
    ensures
        ga_secret_ok(s),
{
    assert(16 <= (8 * n + 4) / 5 <= 128) by (nonlinear_arith)
        requires
            10 <= n <= 80,
    ;
    assert forall|i: int| 0 <= i < s.len() implies is_b32_decodable_char(#[trigger] s[i]) by {
        assert(is_b32_char(s[i]));
    }
}

} // verus!
