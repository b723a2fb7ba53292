//! The digest function: a deterministic 64-bit accumulator over a record's
//! hashed fields (payload characters, then timestamp, then nonce), rendered
//! as a decimal string.
//!
//! The accumulator folds each word into the state by xor followed by a
//! wrapping multiplication with an odd prime, in a fixed field order, so the
//! same tuple always yields the same digest. It is cheap to verify and has
//! no hidden state, but it is *not* cryptographically secure: it is a
//! demonstration digest, adequate for tamper detection against accidental
//! or naive edits, not against an adversary searching for collisions.

use vstd::prelude::*;
use vstd::string::StrSliceExecFns;
use vstd::string::StringExecFns;

verus! {

/// Seed of the digest accumulator.
pub const DIGEST_SEED: u64 = 0xcbf2_9ce4_8422_2325;

/// Odd multiplier folded into the state after every word.
pub const DIGEST_PRIME: u64 = 0x100_0000_01b3;

/// First odd multiplier of the finalizer.
pub const FINAL_MULT_A: u64 = 0xbf58_476d_1ce4_e5b9;

/// Second odd multiplier of the finalizer.
pub const FINAL_MULT_B: u64 = 0x94d0_49bb_1331_11eb;

/// A mined digest must begin with this character repeated `difficulty` times.
pub const MARKER: char = '1';

/// One round of the accumulator: fold the word `v` into the state `h`.
pub open spec fn mix(h: u64, v: u64) -> u64 {
    vstd::wrapping::u64_specs::wrapping_mul(h ^ v, DIGEST_PRIME)
}

/// The state after folding every character of `s` into `h`, left to right.
pub open spec fn mix_chars(h: u64, s: Seq<char>) -> u64
    decreases s.len(),
{
    if s.len() == 0 {
        h
    } else {
        mix(mix_chars(h, s.drop_last()), s.last() as u64)
    }
}

/// The finalizer: three xor-shift and multiply rounds that spread every
/// bit of the state across the whole word, so that nearby inputs (such as
/// consecutive nonces) yield unrelated digests.
pub open spec fn avalanche(h: u64) -> u64 {
    let a = vstd::wrapping::u64_specs::wrapping_mul(h ^ (h >> 30), FINAL_MULT_A);
    let b = vstd::wrapping::u64_specs::wrapping_mul(a ^ (a >> 27), FINAL_MULT_B);
    b ^ (b >> 31)
}

/// The 64-bit digest of a record's hashed field tuple: the payload's
/// characters, then the timestamp, then the nonce, folded in that order,
/// then finalized.
pub open spec fn spec_digest_u64(data: Seq<char>, timestamp: u64, nonce: u32) -> u64 {
    avalanche(mix(mix(mix_chars(DIGEST_SEED, data), timestamp), nonce as u64))
}

/// The character for one decimal digit.
pub open spec fn spec_digit_char(d: int) -> char {
    if d == 0 {
        '0'
    } else if d == 1 {
        '1'
    } else if d == 2 {
        '2'
    } else if d == 3 {
        '3'
    } else if d == 4 {
        '4'
    } else if d == 5 {
        '5'
    } else if d == 6 {
        '6'
    } else if d == 7 {
        '7'
    } else if d == 8 {
        '8'
    } else {
        '9'
    }
}

/// The decimal digits of `n`, most significant first, with no leading
/// zeros (`0` itself is the single digit `'0'`).
pub open spec fn spec_decimal(n: nat) -> Seq<char>
    decreases n,
{
    if n < 10 {
        seq![spec_digit_char(n as int)]
    } else {
        spec_decimal(n / 10).push(spec_digit_char((n % 10) as int))
    }
}

/// The digest as text: the decimal rendering of the 64-bit digest.
pub open spec fn spec_digest(data: Seq<char>, timestamp: u64, nonce: u32) -> Seq<char> {
    spec_decimal(spec_digest_u64(data, timestamp, nonce) as nat)
}

/// `s` begins with the marker character repeated `d` times.
pub open spec fn spec_has_marker_prefix(s: Seq<char>, d: nat) -> bool {
    d <= s.len() && forall|i: int| 0 <= i < d ==> s[i] == MARKER
}

/// A decimal rendering has at least one digit, and at least two once the
/// value reaches ten.
proof fn lemma_decimal_len(n: nat)
    ensures
        spec_decimal(n).len() >= 1,
        n >= 10 ==> spec_decimal(n).len() >= 2,
    decreases n,
{
    if n >= 10 {
        lemma_decimal_len(n / 10);
    }
}

/// Distinct values render as distinct decimal strings.
proof fn lemma_decimal_injective(m: nat, n: nat)
    requires
        spec_decimal(m) == spec_decimal(n),
    ensures
        m == n,
    decreases m,
{
    lemma_decimal_len(m);
    lemma_decimal_len(n);
    if m < 10 && n < 10 {
        assert(seq![spec_digit_char(m as int)][0] == spec_digit_char(m as int));
        assert(seq![spec_digit_char(n as int)][0] == spec_digit_char(n as int));
        assert(spec_digit_char(m as int) == spec_digit_char(n as int));
    } else if m >= 10 && n >= 10 {
        let a = spec_decimal(m / 10);
        let b = spec_decimal(n / 10);
        assert(a.push(spec_digit_char((m % 10) as int)).last() == spec_digit_char(
            (m % 10) as int,
        ));
        assert(b.push(spec_digit_char((n % 10) as int)).last() == spec_digit_char(
            (n % 10) as int,
        ));
        assert(spec_digit_char((m % 10) as int) == spec_digit_char((n % 10) as int));
        assert(m % 10 == n % 10);
        assert(a =~= b) by {
            assert(a.len() == b.len());
            assert(forall|i: int|
                0 <= i < a.len() ==> a[i] == spec_decimal(m)[i] && b[i] == spec_decimal(n)[i]);
        }
        lemma_decimal_injective(m / 10, n / 10);
    } else {
        assert(spec_decimal(m).len() != spec_decimal(n).len());
    }
}

/// Wrapping multiplication by the odd word multiplier keeps distinct
/// inputs distinct: the multiplier is invertible.
proof fn lemma_mul_prime_cancel(x1: u64, x2: u64)
    requires
        vstd::wrapping::u64_specs::wrapping_mul(x1, DIGEST_PRIME)
            == vstd::wrapping::u64_specs::wrapping_mul(x2, DIGEST_PRIME),
    ensures
        x1 == x2,
{
    assert((x1 * 0x100_0000_01b3) % 0x1_0000_0000_0000_0000 == (x2 * 0x100_0000_01b3)
        % 0x1_0000_0000_0000_0000 ==> x1 == x2) by (bit_vector);
}

/// Wrapping multiplication by the first finalizer multiplier is invertible.
proof fn lemma_mul_final_a_cancel(x1: u64, x2: u64)
    requires
        vstd::wrapping::u64_specs::wrapping_mul(x1, FINAL_MULT_A)
            == vstd::wrapping::u64_specs::wrapping_mul(x2, FINAL_MULT_A),
    ensures
        x1 == x2,
{
    assert((x1 * 0xbf58_476d_1ce4_e5b9) % 0x1_0000_0000_0000_0000 == (x2 * 0xbf58_476d_1ce4_e5b9)
        % 0x1_0000_0000_0000_0000 ==> x1 == x2) by (bit_vector);
}

/// Wrapping multiplication by the second finalizer multiplier is invertible.
proof fn lemma_mul_final_b_cancel(x1: u64, x2: u64)
    requires
        vstd::wrapping::u64_specs::wrapping_mul(x1, FINAL_MULT_B)
            == vstd::wrapping::u64_specs::wrapping_mul(x2, FINAL_MULT_B),
    ensures
        x1 == x2,
{
    assert((x1 * 0x94d0_49bb_1331_11eb) % 0x1_0000_0000_0000_0000 == (x2 * 0x94d0_49bb_1331_11eb)
        % 0x1_0000_0000_0000_0000 ==> x1 == x2) by (bit_vector);
}

/// One round of the accumulator keeps distinct words distinct (for one
/// and the same incoming state).
proof fn lemma_mix_injective_word(h: u64, v1: u64, v2: u64)
    requires
        mix(h, v1) == mix(h, v2),
    ensures
        v1 == v2,
{
    lemma_mul_prime_cancel(h ^ v1, h ^ v2);
    assert(h ^ v1 == h ^ v2 ==> v1 == v2) by (bit_vector);
}

/// One round of the accumulator keeps distinct states distinct (for one
/// and the same folded word).
proof fn lemma_mix_injective_state(h1: u64, h2: u64, v: u64)
    requires
        mix(h1, v) == mix(h2, v),
    ensures
        h1 == h2,
{
    lemma_mul_prime_cancel(h1 ^ v, h2 ^ v);
    assert(h1 ^ v == h2 ^ v ==> h1 == h2) by (bit_vector);
}

/// The finalizer is a bijection: each of its three rounds is invertible.
proof fn lemma_avalanche_injective(h1: u64, h2: u64)
    requires
        avalanche(h1) == avalanche(h2),
    ensures
        h1 == h2,
{
    let a1: u64 = vstd::wrapping::u64_specs::wrapping_mul(h1 ^ (h1 >> 30), FINAL_MULT_A);
    let a2: u64 = vstd::wrapping::u64_specs::wrapping_mul(h2 ^ (h2 >> 30), FINAL_MULT_A);
    let b1: u64 = vstd::wrapping::u64_specs::wrapping_mul(a1 ^ (a1 >> 27), FINAL_MULT_B);
    let b2: u64 = vstd::wrapping::u64_specs::wrapping_mul(a2 ^ (a2 >> 27), FINAL_MULT_B);
    assert(b1 ^ (b1 >> 31) == b2 ^ (b2 >> 31) ==> b1 == b2) by (bit_vector);
    lemma_mul_final_b_cancel(a1 ^ (a1 >> 27), a2 ^ (a2 >> 27));
    assert(a1 ^ (a1 >> 27) == a2 ^ (a2 >> 27) ==> a1 == a2) by (bit_vector);
    lemma_mul_final_a_cancel(h1 ^ (h1 >> 30), h2 ^ (h2 >> 30));
    assert(h1 ^ (h1 >> 30) == h2 ^ (h2 >> 30) ==> h1 == h2) by (bit_vector);
}

/// Law: for one and the same payload and timestamp, distinct nonces yield
/// distinct textual digests. An edit of a record's nonce alone therefore
/// always changes what the digest function recomputes.
pub proof fn lemma_digest_injective_nonce(data: Seq<char>, timestamp: u64, n1: u32, n2: u32)
    requires
        spec_digest(data, timestamp, n1) == spec_digest(data, timestamp, n2),
    ensures
        n1 == n2,
{
    lemma_decimal_injective(
        spec_digest_u64(data, timestamp, n1) as nat,
        spec_digest_u64(data, timestamp, n2) as nat,
    );
    let h: u64 = mix(mix_chars(DIGEST_SEED, data), timestamp);
    lemma_avalanche_injective(mix(h, n1 as u64), mix(h, n2 as u64));
    lemma_mix_injective_word(h, n1 as u64, n2 as u64);
}

/// Law: for one and the same payload and nonce, distinct timestamps yield
/// distinct textual digests. An edit of a record's timestamp alone
/// therefore always changes what the digest function recomputes.
pub proof fn lemma_digest_injective_timestamp(data: Seq<char>, t1: u64, t2: u64, nonce: u32)
    requires
        spec_digest(data, t1, nonce) == spec_digest(data, t2, nonce),
    ensures
        t1 == t2,
{
    lemma_decimal_injective(
        spec_digest_u64(data, t1, nonce) as nat,
        spec_digest_u64(data, t2, nonce) as nat,
    );
    let a: u64 = mix_chars(DIGEST_SEED, data);
    lemma_avalanche_injective(mix(mix(a, t1), nonce as u64), mix(mix(a, t2), nonce as u64));
    lemma_mix_injective_state(mix(a, t1), mix(a, t2), nonce as u64);
    lemma_mix_injective_word(a, t1, t2);
}

/// The one-character string for a decimal digit.
fn digit_str(d: u64) -> (r: &'static str)
    requires
        d < 10,
    ensures
        r@ == seq![spec_digit_char(d as int)],
{
    proof {
        reveal_strlit("0");
        reveal_strlit("1");
        reveal_strlit("2");
        reveal_strlit("3");
        reveal_strlit("4");
        reveal_strlit("5");
        reveal_strlit("6");
        reveal_strlit("7");
        reveal_strlit("8");
        reveal_strlit("9");
    }
    let r: &'static str = if d == 0 {
        "0"
    } else if d == 1 {
        "1"
    } else if d == 2 {
        "2"
    } else if d == 3 {
        "3"
    } else if d == 4 {
        "4"
    } else if d == 5 {
        "5"
    } else if d == 6 {
        "6"
    } else if d == 7 {
        "7"
    } else if d == 8 {
        "8"
    } else {
        "9"
    };
    proof {
        assert(r@ =~= seq![spec_digit_char(d as int)]);
    }
    r
}

/// The decimal rendering of `n`, most significant digit first.
fn u64_to_decimal(n: u64) -> (r: String)
    ensures
        r@ == spec_decimal(n as nat),
    decreases n,
{
    if n < 10 {
        let r = digit_str(n).to_owned();
        proof {
            assert(r@ =~= spec_decimal(n as nat));
        }
        r
    } else {
        let mut r = u64_to_decimal(n / 10);
        r.append(digit_str(n % 10));
        proof {
            assert(r@ =~= spec_decimal(n as nat));
        }
        r
    }
}

/// The textual digest of the hashed field tuple `(data, timestamp, nonce)`.
pub fn compute_digest(data: &str, timestamp: u64, nonce: u32) -> (r: String)
    ensures
        r@ == spec_digest(data@, timestamp, nonce),
{
    let len: usize = data.unicode_len();
    let mut h: u64 = DIGEST_SEED;
    let mut i: usize = 0;
    while i < len
        invariant
            i <= len,
            len == data@.len(),
            h == mix_chars(DIGEST_SEED, data@.take(i as int)),
        decreases len - i,
    {
        let c = data.get_char(i);
        h = (h ^ (c as u64)).wrapping_mul(DIGEST_PRIME);
        proof {
            assert(data@.take(i + 1).drop_last() =~= data@.take(i as int));
        }
        i = i + 1;
    }
    proof {
        assert(data@.take(len as int) =~= data@);
    }
    let h: u64 = (h ^ timestamp).wrapping_mul(DIGEST_PRIME);
    let h: u64 = (h ^ (nonce as u64)).wrapping_mul(DIGEST_PRIME);
    let h: u64 = (h ^ (h >> 30)).wrapping_mul(FINAL_MULT_A);
    let h: u64 = (h ^ (h >> 27)).wrapping_mul(FINAL_MULT_B);
    let h: u64 = h ^ (h >> 31);
    u64_to_decimal(h)
}

/// Whether `s` begins with the marker character repeated `d` times.
pub fn has_marker_prefix(s: &str, d: usize) -> (r: bool)
    ensures
        r == spec_has_marker_prefix(s@, d as nat),
{
    let len: usize = s.unicode_len();
    if len < d {
        return false;
    }
    let mut i: usize = 0;
    while i < d
        invariant
            i <= d,
            d <= len,
            len == s@.len(),
            forall|j: int| 0 <= j < i ==> s@[j] == MARKER,
        decreases d - i,
    {
        if s.get_char(i) != MARKER {
            return false;
        }
        i = i + 1;
    }
    true
}

} // verus!
