//! Base32 encoding (RFC 4648 alphabet, unpadded) of secret bytes.
//!
//! A freshly generated secret is a string of random bytes; it is stored and
//! handed to callers in this encoding: five bits per character, so eight
//! characters for every five bytes and no `=` tail — authenticator apps
//! conventionally take their secrets pad-free.

use vstd::prelude::*;

verus! {

/// Appends the given char to the end of the string.
pub assume_specification[ String::push ](s: &mut String, ch: char)
    ensures
        final(s)@ == old(s)@.push(ch),
;

/// The base32 alphabet: `d` must be a 5-bit value; anything above 31 cannot
/// arise from the digit extraction below.
pub open spec fn b32_char(d: u8) -> char {
    if d == 0 {
        'A'
    } else if d == 1 {
        'B'
    } else if d == 2 {
        'C'
    } else if d == 3 {
        'D'
    } else if d == 4 {
        'E'
    } else if d == 5 {
        'F'
    } else if d == 6 {
        'G'
    } else if d == 7 {
        'H'
    } else if d == 8 {
        'I'
    } else if d == 9 {
        'J'
    } else if d == 10 {
        'K'
    } else if d == 11 {
        'L'
    } else if d == 12 {
        'M'
    } else if d == 13 {
        'N'
    } else if d == 14 {
        'O'
    } else if d == 15 {
        'P'
    } else if d == 16 {
        'Q'
    } else if d == 17 {
        'R'
    } else if d == 18 {
        'S'
    } else if d == 19 {
        'T'
    } else if d == 20 {
        'U'
    } else if d == 21 {
        'V'
    } else if d == 22 {
        'W'
    } else if d == 23 {
        'X'
    } else if d == 24 {
        'Y'
    } else if d == 25 {
        'Z'
    } else if d == 26 {
        '2'
    } else if d == 27 {
        '3'
    } else if d == 28 {
        '4'
    } else if d == 29 {
        '5'
    } else if d == 30 {
        '6'
    } else {
        '7'
    }
}

/// A character the encoder can emit: the base32 alphabet proper.
pub open spec fn is_b32_char(c: char) -> bool {
    ('A' <= c && c <= 'Z') || ('2' <= c && c <= '7')
}

/// The byte at position `k`, reading positions past the end as zero (the
/// final partial group is encoded as if zero-filled).
pub open spec fn byte_at(data: Seq<u8>, k: int) -> u8 {
    if 0 <= k < data.len() {
        data[k]
    } else {
        0
    }
}

/// The 5-bit value encoded by output position `j`: position `p = j % 8` of
/// the group of five bytes starting at `5 * (j / 8)`.
pub open spec fn b32_digit(data: Seq<u8>, j: int) -> u8 {
    let g = j / 8;
    let p = j % 8;
    let b0 = byte_at(data, 5 * g);
    let b1 = byte_at(data, 5 * g + 1);
    let b2 = byte_at(data, 5 * g + 2);
    let b3 = byte_at(data, 5 * g + 3);
    let b4 = byte_at(data, 5 * g + 4);
    if p == 0 {
        b0 >> 3
    } else if p == 1 {
        ((b0 & 0x07) << 2) | (b1 >> 6)
    } else if p == 2 {
        (b1 & 0x3e) >> 1
    } else if p == 3 {
        ((b1 & 0x01) << 4) | (b2 >> 4)
    } else if p == 4 {
        ((b2 & 0x0f) << 1) | (b3 >> 7)
    } else if p == 5 {
        (b3 & 0x7c) >> 2
    } else if p == 6 {
        ((b3 & 0x03) << 3) | (b4 >> 5)
    } else {
        b4 & 0x1f
    }
}

/// How many five-byte groups `n` bytes occupy.
pub open spec fn b32_num_groups(n: int) -> int {
    if n % 5 == 0 {
        n / 5
    } else {
        n / 5 + 1
    }
}

/// Length of the unpadded encoding of `n` bytes: one character per five
/// bits, the last character carrying the zero-filled remainder.
pub open spec fn b32_enc_len(n: int) -> int {
    (8 * n + 4) / 5
}

/// The unpadded base32 encoding of `data`.
pub open spec fn b32_encode(data: Seq<u8>) -> Seq<char> {
    Seq::new(b32_enc_len(data.len() as int) as nat, |j: int| b32_char(b32_digit(data, j)))
}

/// Every character the encoder emits lies in the base32 alphabet, so an
/// encoded secret is always base32-decodable.
pub proof fn lemma_b32_encode_chars(data: Seq<u8>)
    ensures
        forall|j: int|
            0 <= j < b32_encode(data).len() ==> #[trigger] is_b32_char(b32_encode(data)[j]),
{
    assert forall|j: int|
        0 <= j < b32_encode(data).len() implies #[trigger] is_b32_char(b32_encode(data)[j]) by {
        assert(is_b32_char(b32_char(b32_digit(data, j))));
    }
}

fn b32_char_exec(d: u8) -> (c: char)
    ensures
        c == b32_char(d),
{
    if d == 0 {
        'A'
    } else if d == 1 {
        'B'
    } else if d == 2 {
        'C'
    } else if d == 3 {
        'D'
    } else if d == 4 {
        'E'
    } else if d == 5 {
        'F'
    } else if d == 6 {
        'G'
    } else if d == 7 {
        'H'
    } else if d == 8 {
        'I'
    } else if d == 9 {
        'J'
    } else if d == 10 {
        'K'
    } else if d == 11 {
        'L'
    } else if d == 12 {
        'M'
    } else if d == 13 {
        'N'
    } else if d == 14 {
        'O'
    } else if d == 15 {
        'P'
    } else if d == 16 {
        'Q'
    } else if d == 17 {
        'R'
    } else if d == 18 {
        'S'
    } else if d == 19 {
        'T'
    } else if d == 20 {
        'U'
    } else if d == 21 {
        'V'
    } else if d == 22 {
        'W'
    } else if d == 23 {
        'X'
    } else if d == 24 {
        'Y'
    } else if d == 25 {
        'Z'
    } else if d == 26 {
        '2'
    } else if d == 27 {
        '3'
    } else if d == 28 {
        '4'
    } else if d == 29 {
        '5'
    } else if d == 30 {
        '6'
    } else {
        '7'
    }
}

/// Pushes the character for output position `idx` while the position
/// carries bits; positions past the data length emit nothing.
fn push_b32(out: &mut String, d: u8, idx: usize, keep: usize)
    ensures
        final(out)@ == if idx < keep {
            old(out)@.push(b32_char(d))
        } else {
            old(out)@
        },
{
    if idx < keep {
        let c = b32_char_exec(d);
        out.push(c);
    }
}

/// Unfolds the eight digits of group `g` to the byte expressions the encoder
/// computes.
proof fn lemma_group_digits(data: Seq<u8>, g: int)
    requires
        g >= 0,
    ensures
        b32_digit(data, 8 * g) == byte_at(data, 5 * g) >> 3,
        b32_digit(data, 8 * g + 1) == ((byte_at(data, 5 * g) & 0x07) << 2) | (byte_at(
            data,
            5 * g + 1,
        ) >> 6),
        b32_digit(data, 8 * g + 2) == (byte_at(data, 5 * g + 1) & 0x3e) >> 1,
        b32_digit(data, 8 * g + 3) == ((byte_at(data, 5 * g + 1) & 0x01) << 4) | (byte_at(
            data,
            5 * g + 2,
        ) >> 4),
        b32_digit(data, 8 * g + 4) == ((byte_at(data, 5 * g + 2) & 0x0f) << 1) | (byte_at(
            data,
            5 * g + 3,
        ) >> 7),
        b32_digit(data, 8 * g + 5) == (byte_at(data, 5 * g + 3) & 0x7c) >> 2,
        b32_digit(data, 8 * g + 6) == ((byte_at(data, 5 * g + 3) & 0x03) << 3) | (byte_at(
            data,
            5 * g + 4,
        ) >> 5),
        b32_digit(data, 8 * g + 7) == (byte_at(data, 5 * g + 4) & 0x1f),
{
    assert((8 * g + 0) / 8 == g && (8 * g + 0) % 8 == 0) by (nonlinear_arith)
        requires
            g >= 0,
    ;
    assert((8 * g + 1) / 8 == g && (8 * g + 1) % 8 == 1) by (nonlinear_arith)
        requires
            g >= 0,
    ;
    assert((8 * g + 2) / 8 == g && (8 * g + 2) % 8 == 2) by (nonlinear_arith)
        requires
            g >= 0,
    ;
    assert((8 * g + 3) / 8 == g && (8 * g + 3) % 8 == 3) by (nonlinear_arith)
        requires
            g >= 0,
    ;
    assert((8 * g + 4) / 8 == g && (8 * g + 4) % 8 == 4) by (nonlinear_arith)
        requires
            g >= 0,
    ;
    assert((8 * g + 5) / 8 == g && (8 * g + 5) % 8 == 5) by (nonlinear_arith)
        requires
            g >= 0,
    ;
    assert((8 * g + 6) / 8 == g && (8 * g + 6) % 8 == 6) by (nonlinear_arith)
        requires
            g >= 0,
    ;
    assert((8 * g + 7) / 8 == g && (8 * g + 7) % 8 == 7) by (nonlinear_arith)
        requires
            g >= 0,
    ;
}

/// Encodes `data` in unpadded base32.
#[verifier::rlimit(100)]
pub fn base32_encode(data: &Vec<u8>) -> (r: String)
    requires
        8 * data@.len() + 4 <= usize::MAX,
    ensures
        r@ == b32_encode(data@),
{
    let n = data.len();
    let num_groups = if n % 5 == 0 {
        n / 5
    } else {
        n / 5 + 1
    };
    let keep = (8 * n + 4) / 5;
    let mut out = String::new();
    proof {
        let ni = n as int;
        assert(5 * (ni / 5) <= ni && ni < 5 * (ni / 5) + 5) by (nonlinear_arith)
            requires
                ni >= 0,
        ;
        assert((8 * ni + 4) / 5 <= (if ni % 5 == 0 {
            8 * (ni / 5)
        } else {
            8 * (ni / 5) + 8
        })) by (nonlinear_arith)
            requires
                ni >= 0,
        ;
    }
    let mut g: usize = 0;
    while g < num_groups
        invariant
            num_groups == b32_num_groups(n as int),
            keep == b32_enc_len(n as int),
            keep <= 8 * num_groups,
            n == data@.len(),
            8 * data@.len() + 4 <= usize::MAX,
            5 * num_groups <= n + 5,
            g <= num_groups,
            out@.len() == (if 8 * (g as int) <= keep as int {
                8 * (g as int)
            } else {
                keep as int
            }),
            forall|j: int| 0 <= j < out@.len() ==> out@[j] == b32_encode(data@)[j],
        decreases num_groups - g,
    {
        let i = 5 * g;
        let b0 = if i < n {
            data[i]
        } else {
            0
        };
        let b1 = if i + 1 < n {
            data[i + 1]
        } else {
            0
        };
        let b2 = if i + 2 < n {
            data[i + 2]
        } else {
            0
        };
        let b3 = if i + 3 < n {
            data[i + 3]
        } else {
            0
        };
        let b4 = if i + 4 < n {
            data[i + 4]
        } else {
            0
        };
        proof {
            lemma_group_digits(data@, g as int);
            assert(8 * (g as int) < keep as int) by (nonlinear_arith)
                requires
                    g < num_groups && num_groups == b32_num_groups(n as int) && keep as int
                        == b32_enc_len(n as int) && n >= 0,
            ;
        }
        let base = 8 * g;
        push_b32(&mut out, b0 >> 3, base, keep);
        push_b32(&mut out, ((b0 & 0x07) << 2) | (b1 >> 6), base + 1, keep);
        push_b32(&mut out, (b1 & 0x3e) >> 1, base + 2, keep);
        push_b32(&mut out, ((b1 & 0x01) << 4) | (b2 >> 4), base + 3, keep);
        push_b32(&mut out, ((b2 & 0x0f) << 1) | (b3 >> 7), base + 4, keep);
        push_b32(&mut out, (b3 & 0x7c) >> 2, base + 5, keep);
        push_b32(&mut out, ((b3 & 0x03) << 3) | (b4 >> 5), base + 6, keep);
        push_b32(&mut out, b4 & 0x1f, base + 7, keep);
        g = g + 1;
        proof {
            assert(out@.len() == (if 8 * (g as int) <= keep as int {
                8 * (g as int)
            } else {
                keep as int
            }));
            assert forall|j: int| 0 <= j < out@.len() implies out@[j] == b32_encode(data@)[j] by {
                if 8 * (g - 1) <= j {
                    assert(j < b32_enc_len(n as int));
                }
            }
        }
    }
    proof {
        assert(out@.len() == keep as int);
        assert(out@ =~= b32_encode(data@));
    }
    out
}

} // verus!
