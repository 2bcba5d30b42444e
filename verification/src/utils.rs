//! Byte-level utilities: digests, hex and base58 codecs, and set operations.

use ripemd::Digest as RipemdDigest;
use sha2::Digest as Sha2Digest;
use std::collections::HashSet;
use vstd::prelude::*;

verus! {

// ---------------------------------------------------------------------------
// Digests
// ---------------------------------------------------------------------------

/// The SHA-256 digest of a byte sequence. The digest depends on the input
/// bytes alone, so it is only named here; the sha2 crate computes it.
pub uninterp spec fn sha256_of(data: Seq<u8>) -> Seq<u8>;

/// Relies on sha2::Sha256 for the digest; its output is always 32 bytes and
/// depends on the input bytes alone.
#[verifier::external_body]
pub fn sha256(data: &[u8]) -> (r: Vec<u8>)
    ensures
        r@ == sha256_of(data@),
        r@.len() == 32,
{
    sha2::Sha256::digest(data).to_vec()
}

/// The RIPEMD-160 digest of a byte sequence; the ripemd crate computes it.
pub uninterp spec fn ripemd160_of(data: Seq<u8>) -> Seq<u8>;

/// Relies on ripemd::Ripemd160 for the digest; its output is always 20 bytes
/// and depends on the input bytes alone.
#[verifier::external_body]
pub fn ripemd160(data: &[u8]) -> (r: Vec<u8>)
    ensures
        r@ == ripemd160_of(data@),
        r@.len() == 20,
{
    ripemd::Ripemd160::digest(data).to_vec()
}

// ---------------------------------------------------------------------------
// Hex encoding and decoding
// ---------------------------------------------------------------------------

/// Why a hex string could not be decoded.
#[derive(Clone, Copy, Debug, PartialEq, Eq)]
pub enum HexError {
    /// The string's length is odd; two digits encode one byte.
    OddLength,
    /// The string holds a character that is not a hex digit.
    InvalidChar,
}

/// The sixteen lower-case hex digits, indexed by nibble value.
pub open spec fn hex_digits() -> Seq<char> {
    seq!['0', '1', '2', '3', '4', '5', '6', '7', '8', '9', 'a', 'b', 'c', 'd', 'e', 'f']
}

/// Whether `c` is a hex digit (either case).
pub open spec fn is_hex_digit(c: char) -> bool {
    ('0' <= c && c <= '9') || ('a' <= c && c <= 'f') || ('A' <= c && c <= 'F')
}

/// The value of a hex digit.
pub open spec fn hex_digit_value(c: char) -> u8 {
    if '0' <= c && c <= '9' {
        (c as u8 - '0' as u8) as u8
    } else if 'a' <= c && c <= 'f' {
        (c as u8 - 'a' as u8 + 10) as u8
    } else {
        (c as u8 - 'A' as u8 + 10) as u8
    }
}

/// The lower-case hex encoding of a byte sequence: two digits per byte,
/// high nibble first.
pub open spec fn spec_hex_of(data: Seq<u8>) -> Seq<char>
    decreases data.len(),
{
    if data.len() == 0 {
        Seq::empty()
    } else {
        seq![
            hex_digits()[data.first() as int / 16],
            hex_digits()[data.first() as int % 16],
        ] + spec_hex_of(data.drop_first())
    }
}

/// What decoding a hex string yields: the encoded bytes if every character
/// is a hex digit and the length is even, and the first applicable error
/// otherwise (a stray character is reported before an odd length).
pub open spec fn spec_hex_decode(s: Seq<char>) -> Result<Seq<u8>, HexError> {
    if exists|i: int| 0 <= i < s.len() && !is_hex_digit(s[i]) {
        Err(HexError::InvalidChar)
    } else if s.len() % 2 != 0 {
        Err(HexError::OddLength)
    } else {
        Ok(
            Seq::new(
                s.len() / 2,
                |i: int| (16 * hex_digit_value(s[2 * i]) + hex_digit_value(s[2 * i + 1])) as u8,
            ),
        )
    }
}

/// Relies on hex::encode: two lower-case digits per byte, high nibble first.
#[verifier::external_body]
pub fn hex_encode(data: &[u8]) -> (r: String)
    ensures
        r@ == spec_hex_of(data@),
{
    hex::encode(data)
}

/// Relies on hex::decode: over hex digits it yields the encoded bytes, or
/// reports an odd-length input. The error enum of the hex crate is folded
/// into [`HexError`], one variant per arm.
#[verifier::external_body]
fn hex_decode_digits(s: &str) -> (r: Result<Vec<u8>, HexError>)
    requires
        forall|i: int| 0 <= i < s@.len() ==> is_hex_digit(s@[i]),
    ensures
        match r {
            Ok(v) => spec_hex_decode(s@) == Ok::<Seq<u8>, HexError>(v@),
            Err(e) => spec_hex_decode(s@) == Err::<Seq<u8>, HexError>(e),
        },
{
    match hex::decode(s) {
        Ok(v) => Ok(v),
        Err(hex::FromHexError::OddLength) => Err(HexError::OddLength),
        Err(_) => Err(HexError::InvalidChar),
    }
}

/// Whether `c` is a hex digit, decidable at run time.
pub fn is_hex_digit_char(c: char) -> (r: bool)
    ensures
        r == is_hex_digit(c),
{
    ('0' <= c && c <= '9') || ('a' <= c && c <= 'f') || ('A' <= c && c <= 'F')
}

/// Decodes a hex string into the bytes it spells.
pub fn hex_decode(s: &str) -> (r: Result<Vec<u8>, HexError>)
    ensures
        match r {
            Ok(v) => spec_hex_decode(s@) == Ok::<Seq<u8>, HexError>(v@),
            Err(e) => spec_hex_decode(s@) == Err::<Seq<u8>, HexError>(e),
        },
{
    for c in it: s.chars()
        invariant
            forall|i: int| 0 <= i < it.index() ==> is_hex_digit(it.seq()[i]),
            it.seq() == s@,
    {
        if !is_hex_digit_char(c) {
            return Err(HexError::InvalidChar);
        }
    }
    hex_decode_digits(s)
}

// ---------------------------------------------------------------------------
// Base58 encoding and decoding
// ---------------------------------------------------------------------------

/// Why a base58 string could not be decoded.
#[derive(Clone, Copy, Debug, PartialEq, Eq)]
pub enum Base58Error {
    /// A character outside the base58 alphabet.
    InvalidCharacter,
    /// A multi-byte character; base58 strings are ASCII.
    NonAsciiCharacter,
}

/// The base58 encoding of a byte sequence under the Bitcoin alphabet; it
/// depends on the input bytes alone, so it is only named here.
pub uninterp spec fn base58_of(data: Seq<u8>) -> Seq<char>;

/// What decoding a base58 string yields, if anything; the bs58 crate
/// computes it from the characters alone.
pub uninterp spec fn base58_decoded(s: Seq<char>) -> Option<Seq<u8>>;

/// Relies on bs58::encode with its default (Bitcoin) alphabet; the encoding
/// of no bytes is the empty string.
#[verifier::external_body]
pub fn base58_encode(data: &[u8]) -> (r: String)
    ensures
        r@ == base58_of(data@),
        data@.len() == 0 ==> r@.len() == 0,
{
    bs58::encode(data).into_string()
}

/// Relies on bs58::decode with its default (Bitcoin) alphabet: it yields
/// bytes exactly for strings of alphabet characters. The error enum of the
/// bs58 crate is folded into [`Base58Error`], one variant per arm.
#[verifier::external_body]
pub fn base58_decode(s: &str) -> (r: Result<Vec<u8>, Base58Error>)
    ensures
        match r {
            Ok(v) => base58_decoded(s@) == Some(v@),
            Err(_) => base58_decoded(s@) is None,
        },
{
    match bs58::decode(s).into_vec() {
        Ok(v) => Ok(v),
        Err(bs58::decode::Error::NonAsciiCharacter { .. }) => Err(Base58Error::NonAsciiCharacter),
        Err(_) => Err(Base58Error::InvalidCharacter),
    }
}

/// Relies on rand_core::OsRng for 32 bytes from the operating system's
/// entropy source; nothing is promised of the values.
#[verifier::external_body]
pub(crate) fn os_random_bytes32() -> (r: Vec<u8>)
    ensures
        r@.len() == 32,
{
    let mut buf = [0u8; 32];
    rand_core::RngCore::fill_bytes(&mut rand_core::OsRng, &mut buf);
    buf.to_vec()
}

// ---------------------------------------------------------------------------
// Byte comparison
// ---------------------------------------------------------------------------

/// Whether two byte vectors hold the same bytes.
pub fn bytes_eq(a: &Vec<u8>, b: &Vec<u8>) -> (r: bool)
    ensures
        r == (a@ == b@),
{
    if a.len() != b.len() {
        return false;
    }
    for i in 0..a.len()
        invariant
            a.len() == b.len(),
            forall|j: int| 0 <= j < i ==> a@[j] == b@[j],
    {
        if a[i] != b[i] {
            return false;
        }
    }
    proof {
        assert(a@ =~= b@);
    }
    true
}

// ---------------------------------------------------------------------------
// Set operations
// ---------------------------------------------------------------------------

/// Links a hash set's iteration sequence to membership in the set itself.
proof fn lemma_iter_covers_set(s: Seq<&u64>, m: Set<u64>)
    requires
        s.unref().to_set() == m,
    ensures
        forall|y: u64| #[trigger] m.contains(y) <==> (exists|j: int|
            0 <= j < s.len() && *#[trigger] s[j] == y),
{
    assert forall|y: u64| #[trigger] m.contains(y) implies (exists|j: int|
        0 <= j < s.len() && *#[trigger] s[j] == y) by {
        assert(s.unref().contains(y));
        let i = choose|i: int| 0 <= i < s.unref().len() && s.unref()[i] == y;
        assert(*s[i] == y);
    };
    assert forall|y: u64| (exists|j: int|
        0 <= j < s.len() && *#[trigger] s[j] == y) implies #[trigger] m.contains(y) by {
        let j = choose|j: int| 0 <= j < s.len() && *s[j] == y;
        assert(s.unref()[j] == y);
        assert(s.unref().contains(y));
    };
}

/// The elements of `set1` that are not in `set2`.
pub fn set_difference(set1: &HashSet<u64>, set2: &HashSet<u64>) -> (r: HashSet<u64>)
    ensures
        r@ == set1@.difference(set2@),
{
    let mut r: HashSet<u64> = HashSet::new();
    for x in it: set1.iter()
        invariant
            it.seq().unref().to_set() == set1@,
            forall|y: u64| r@.contains(y) <==> (exists|j: int|
                0 <= j < it.index() && *#[trigger] it.seq()[j] == y && !set2@.contains(y)),
            it.index() == it.seq().len() ==> r@ =~= set1@.difference(set2@),
    {
        proof {
            lemma_iter_covers_set(it.seq(), set1@);
        }
        if !set2.contains(x) {
            r.insert(*x);
        }
    }
    r
}

/// The elements common to `set1` and `set2`.
pub fn set_intersection(set1: &HashSet<u64>, set2: &HashSet<u64>) -> (r: HashSet<u64>)
    ensures
        r@ == set1@.intersect(set2@),
{
    let mut r: HashSet<u64> = HashSet::new();
    for x in it: set1.iter()
        invariant
            it.seq().unref().to_set() == set1@,
            forall|y: u64| r@.contains(y) <==> (exists|j: int|
                0 <= j < it.index() && *#[trigger] it.seq()[j] == y && set2@.contains(y)),
            it.index() == it.seq().len() ==> r@ =~= set1@.intersect(set2@),
    {
        proof {
            lemma_iter_covers_set(it.seq(), set1@);
        }
        if set2.contains(x) {
            r.insert(*x);
        }
    }
    r
}

/// The elements of either `set1` or `set2`.
pub fn set_union(set1: &HashSet<u64>, set2: &HashSet<u64>) -> (r: HashSet<u64>)
    ensures
        r@ == set1@.union(set2@),
{
    let mut r: HashSet<u64> = HashSet::new();
    for x in it: set1.iter()
        invariant
            it.seq().unref().to_set() == set1@,
            forall|y: u64| r@.contains(y) <==> (exists|j: int|
                0 <= j < it.index() && *#[trigger] it.seq()[j] == y),
            it.index() == it.seq().len() ==> (forall|y: u64|
                r@.contains(y) <==> set1@.contains(y)),
    {
        proof {
            lemma_iter_covers_set(it.seq(), set1@);
        }
        r.insert(*x);
    }
    for x in it2: set2.iter()
        invariant
            it2.seq().unref().to_set() == set2@,
            forall|y: u64| r@.contains(y) <==> set1@.contains(y) || (exists|j: int|
                0 <= j < it2.index() && *#[trigger] it2.seq()[j] == y),
            it2.index() == it2.seq().len() ==> r@ =~= set1@.union(set2@),
    {
        proof {
            lemma_iter_covers_set(it2.seq(), set2@);
        }
        r.insert(*x);
    }
    r
}

} // verus!
