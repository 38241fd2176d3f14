//! Proof-of-work puzzles: generation from a random nonce, and bounded
//! solving by exhaustive search.
//!
//! A puzzle is the hex-encoded digest of the decimal text of `r +
//! NETWORK_FLUFF` for some nonce `r` below [`POW_LIMIT`](crate::POW_LIMIT).
//! Solving walks every candidate nonce in the same bound and returns the
//! first digest equal to the puzzle, so a returned solution is always the
//! puzzle string itself.

use vstd::prelude::*;

use crate::error::Ip2pError;
use crate::rng::random_below;
use crate::{NETWORK_FLUFF, POW_LIMIT};

verus! {

// ---------------------------------------------------------------------------
// Decimal text of a nonce
// ---------------------------------------------------------------------------

/// The ASCII decimal digits of `n`.
pub open spec fn dec_bytes_of(n: u64) -> Seq<u8>
    decreases n,
{
    if n < 10 {
        seq![(48 + n) as u8]
    } else {
        dec_bytes_of((n / 10) as u64) + seq![(48 + n % 10) as u8]
    }
}

/// Writes `n` in ASCII decimal.
pub fn u64_to_dec_bytes(n: u64) -> (r: Vec<u8>)
    ensures
        r@ == dec_bytes_of(n),
    decreases n,
{
    if n < 10 {
        let mut v: Vec<u8> = Vec::new();
        v.push((48 + n) as u8);
        proof {
            assert(v@ =~= dec_bytes_of(n));
        }
        v
    } else {
        let mut v = u64_to_dec_bytes(n / 10);
        let d = 48 + n % 10;
        v.push(d as u8);
        proof {
            assert(v@ =~= dec_bytes_of(n));
        }
        v
    }
}

// ---------------------------------------------------------------------------
// Lowercase hex text of a digest
// ---------------------------------------------------------------------------

/// The lowercase hex character of a value below 16.
pub open spec fn hex_digit(n: u8) -> char
    recommends
        n < 16,
{
    if n < 10 {
        ((48 + n) as char)
    } else {
        ((87 + n) as char)
    }
}

/// The lowercase hex text of a byte string, two characters per byte.
pub open spec fn hex_of(b: Seq<u8>) -> Seq<char>
    decreases b.len(),
{
    if b.len() == 0 {
        Seq::<char>::empty()
    } else {
        seq![hex_digit(b[0] / 16), hex_digit(b[0] % 16)] + hex_of(b.skip(1))
    }
}

/// Hex text is twice as long as its bytes.
pub proof fn lemma_hex_len(b: Seq<u8>)
    ensures
        hex_of(b).len() == 2 * b.len(),
    decreases b.len(),
{
    if b.len() > 0 {
        lemma_hex_len(b.skip(1));
    }
}

proof fn lemma_hex_of_append(a: Seq<u8>, b: Seq<u8>)
    ensures
        hex_of(a + b) == hex_of(a) + hex_of(b),
    decreases a.len(),
{
    if a.len() == 0 {
        assert(a + b =~= b);
        assert(hex_of(a) + hex_of(b) =~= hex_of(b));
    } else {
        assert((a + b).skip(1) =~= a.skip(1) + b);
        assert((a + b)[0] == a[0]);
        assert((a + b).len() > 0);
        lemma_hex_of_append(a.skip(1), b);
        let h = seq![hex_digit(a[0] / 16), hex_digit(a[0] % 16)];
        assert(hex_of(a + b) == h + (hex_of(a.skip(1)) + hex_of(b)));
        assert(h + (hex_of(a.skip(1)) + hex_of(b)) =~= (h + hex_of(a.skip(1))) + hex_of(b));
    }
}

proof fn lemma_hex_of_singleton(x: u8)
    ensures
        hex_of(seq![x]) == seq![hex_digit(x / 16), hex_digit(x % 16)],
{
    assert(seq![x].skip(1) =~= Seq::<u8>::empty());
    assert(hex_of(Seq::<u8>::empty()) == Seq::<char>::empty());
    assert(seq![x][0] == x);
    assert(hex_of(seq![x]) == seq![hex_digit(x / 16), hex_digit(x % 16)] + hex_of(
        Seq::<u8>::empty(),
    ));
    assert(seq![hex_digit(x / 16), hex_digit(x % 16)] + Seq::<char>::empty() =~= seq![
        hex_digit(x / 16),
        hex_digit(x % 16),
    ]);
}

/// Writes a byte string as lowercase hex.
pub fn hex_encode(bytes: &Vec<u8>) -> (r: String)
    ensures
        r@ == hex_of(bytes@),
{
    let mut s = String::new();
    let n = bytes.len();
    let mut i: usize = 0;
    while i < n
        invariant
            i <= n,
            n == bytes.len(),
            s@ == hex_of(bytes@.take(i as int)),
        decreases n - i,
    {
        let b = bytes[i];
        let hi = b / 16;
        let lo = b % 16;
        let c_hi: char = if hi < 10 {
            (48 + hi) as char
        } else {
            (87 + hi) as char
        };
        let c_lo: char = if lo < 10 {
            (48 + lo) as char
        } else {
            (87 + lo) as char
        };
        s.push(c_hi);
        s.push(c_lo);
        proof {
            lemma_hex_of_append(bytes@.take(i as int), seq![bytes@[i as int]]);
            lemma_hex_of_singleton(bytes@[i as int]);
            assert(bytes@.take(i + 1) =~= bytes@.take(i as int) + seq![bytes@[i as int]]);
            assert(s@ =~= hex_of(bytes@.take(i + 1)));
        }
        i = i + 1;
    }
    proof {
        assert(bytes@.take(n as int) =~= bytes@);
    }
    s
}

// ---------------------------------------------------------------------------
// The digest
// ---------------------------------------------------------------------------

/// Name for what the SHA-512 digest returns; a function of the input alone.
pub uninterp spec fn sha512_raw(b: Seq<u8>) -> Seq<u8>;

/// The digest, pinned to its documented 64-byte output size.
pub open spec fn sha512_of(b: Seq<u8>) -> Seq<u8> {
    if sha512_raw(b).len() == 64 {
        sha512_raw(b)
    } else {
        Seq::new(64, |i: int| 0u8)
    }
}

/// Relies on sha2's Sha512::digest: a 64-byte digest that depends on the
/// input bytes alone.
#[verifier::external_body]
fn sha512(bytes: &Vec<u8>) -> (r: Vec<u8>)
    ensures
        r@ == sha512_raw(bytes@),
        r@.len() == 64,
{
    <sha2::Sha512 as sha2::Digest>::digest(bytes.as_slice()).to_vec()
}

/// The digest always has 64 bytes.
pub proof fn lemma_sha512_len(b: Seq<u8>)
    ensures
        sha512_of(b).len() == 64,
{
}

// ---------------------------------------------------------------------------
// Puzzles
// ---------------------------------------------------------------------------

/// The puzzle text derived from the hash input `x`.
pub open spec fn pow_hash_of(x: u64) -> Seq<char> {
    hex_of(sha512_of(dec_bytes_of(x)))
}

/// The puzzle text of the candidate nonce `n`.
pub open spec fn pow_attempt(n: u64) -> Seq<char>
    recommends
        n < POW_LIMIT,
{
    pow_hash_of((n + NETWORK_FLUFF) as u64)
}

/// A puzzle text is solvable iff some nonce inside the search bound
/// produces it.
pub open spec fn solvable(problem: Seq<char>) -> bool {
    exists|n: u64| n < POW_LIMIT && pow_attempt(n) == problem
}

/// Every puzzle text has exactly 128 characters.
pub proof fn lemma_pow_hash_len(x: u64)
    ensures
        pow_hash_of(x).len() == 128,
{
    lemma_sha512_len(dec_bytes_of(x));
    lemma_hex_len(sha512_of(dec_bytes_of(x)));
}

/// The puzzle text of the hash input `x`: hex of the digest of the decimal
/// text.
fn pow_hash(x: u64) -> (r: String)
    ensures
        r@ == pow_hash_of(x),
{
    let input = u64_to_dec_bytes(x);
    let digest = sha512(&input);
    proof {
        assert(digest@ == sha512_of(dec_bytes_of(x)));
    }
    hex_encode(&digest)
}

/// Derives the puzzle of the nonce `r`.
pub fn generate_problem(r: u64) -> (p: String)
    requires
        r < POW_LIMIT,
    ensures
        p@ == pow_attempt(r),
{
    pow_hash(r + NETWORK_FLUFF)
}

/// Draws a fresh nonce and derives its puzzle.
pub fn generate_random_problem() -> (p: String)
    ensures
        solvable(p@),
{
    let r = random_below(POW_LIMIT);
    let p = generate_problem(r);
    proof {
        assert(r < POW_LIMIT && pow_attempt(r) == p@);
    }
    p
}

/// Searches the bounded nonce space for a digest equal to `problem`.
///
/// Succeeds exactly on solvable puzzles, and then returns the puzzle string
/// itself; every other input is rejected with `PowFailure`.
pub fn solve(problem: &String) -> (r: Result<String, Ip2pError>)
    ensures
        (r is Ok) == solvable(problem@),
        r matches Ok(s) ==> s@ == problem@,
        r matches Err(e) ==> e == Ip2pError::PowFailure,
{
    if problem.as_str().unicode_len() != 128 {
        proof {
            assert forall|n: u64| n < POW_LIMIT implies pow_attempt(n) != problem@ by {
                lemma_pow_hash_len((n + NETWORK_FLUFF) as u64);
            }
        }
        return Result::Err(Ip2pError::PowFailure);
    }
    let mut n: u64 = 0;
    while n < POW_LIMIT
        invariant
            n <= POW_LIMIT,
            forall|m: u64| m < n ==> pow_attempt(m) != problem@,
        decreases POW_LIMIT - n,
    {
        let s_hash = pow_hash(n + NETWORK_FLUFF);
        if s_hash == *problem {
            proof {
                assert(n < POW_LIMIT && pow_attempt(n) == problem@);
            }
            return Result::Ok(s_hash);
        }
        n = n + 1;
    }
    Result::Err(Ip2pError::PowFailure)
}

/// PoW completeness: the puzzle derived from any nonce inside the search
/// bound is solvable, so [`solve`] succeeds on every output of
/// [`generate_problem`]; by the contract of [`solve`], the returned solution
/// is then the puzzle string itself.
pub proof fn lemma_pow_completeness(r: u64)
    requires
        r < POW_LIMIT,
    ensures
        solvable(pow_attempt(r)),
{
    assert(r < POW_LIMIT && pow_attempt(r) == pow_attempt(r));
}

} // verus!
