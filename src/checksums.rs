//! Checksum strings of the form `<algorithm>:<hex>` and the algorithms behind them.
use crate::chain::{hex2, hex_digit_char};
use crate::codec::{adler32, adler32_of, sha256, sha256_of, sha512, sha512_of};
use crate::text::{chars_of, str_equal, string_of};
use crate::validation::{format_hex8, hex8};
use vstd::prelude::*;
use vstd::string::*;

verus! {

/// A checksum algorithm named in a checksum string.
#[derive(Debug, Clone, Copy, PartialEq, Eq, Structural)]
pub enum ChecksumAlgorithm {
    Sha256,
    Sha512,
    Adler32,
    Blake2b,
}

pub open spec fn algorithm_name(a: ChecksumAlgorithm) -> Seq<char> {
    match a {
        ChecksumAlgorithm::Sha256 => "sha256"@,
        ChecksumAlgorithm::Sha512 => "sha512"@,
        ChecksumAlgorithm::Adler32 => "adler32"@,
        ChecksumAlgorithm::Blake2b => "blake2b"@,
    }
}

impl ChecksumAlgorithm {
    /// The algorithm's name as it prefixes a checksum string.
    pub fn name(&self) -> (r: &'static str)
        ensures
            r@ == algorithm_name(*self),
    {
        match self {
            ChecksumAlgorithm::Sha256 => "sha256",
            ChecksumAlgorithm::Sha512 => "sha512",
            ChecksumAlgorithm::Adler32 => "adler32",
            ChecksumAlgorithm::Blake2b => "blake2b",
        }
    }
}

/// Lower-case hexadecimal of a byte string.
pub open spec fn hex_of(b: Seq<u8>) -> Seq<char>
    decreases b.len(),
{
    if b.len() == 0 {
        Seq::empty()
    } else {
        hex_of(b.drop_last()) + hex2(b.last())
    }
}

/// Lower-case hexadecimal of `bytes`.
pub fn hex_encode(bytes: &[u8]) -> (r: String)
    ensures
        r@ == hex_of(bytes@),
{
    let mut r = String::new();
    let mut i: usize = 0;
    while i < bytes.len()
        invariant
            i <= bytes@.len(),
            r@ == hex_of(bytes@.subrange(0, i as int)),
        decreases bytes@.len() - i,
    {
        let b = bytes[i];
        crate::text::push_char(&mut r, hex_digit_char(b / 16));
        crate::text::push_char(&mut r, hex_digit_char(b % 16));
        assert(bytes@.subrange(0, i + 1).drop_last() =~= bytes@.subrange(0, i as int));
        assert(r@ =~= hex_of(bytes@.subrange(0, i + 1)));
        i = i + 1;
    }
    assert(bytes@.subrange(0, bytes@.len() as int) =~= bytes@);
    r
}

/// Index of the first `c` in `s`, if any.
pub open spec fn first_index_of(s: Seq<char>, c: char) -> Option<int> {
    if s.contains(c) {
        Some(choose|i: int| 0 <= i < s.len() && s[i] == c && forall|j: int| 0 <= j < i ==> s[j] != c)
    } else {
        None
    }
}

/// The algorithm an untagged checksum of `n` bytes is taken for.
pub open spec fn algorithm_by_length(n: nat) -> ChecksumAlgorithm {
    if n == 64 {
        ChecksumAlgorithm::Sha256
    } else if n == 128 {
        ChecksumAlgorithm::Sha512
    } else if n == 8 {
        ChecksumAlgorithm::Adler32
    } else {
        ChecksumAlgorithm::Sha256
    }
}

/// The algorithm a tag names.
pub open spec fn algorithm_named(s: Seq<char>) -> Option<ChecksumAlgorithm> {
    if s == "sha256"@ {
        Some(ChecksumAlgorithm::Sha256)
    } else if s == "sha512"@ {
        Some(ChecksumAlgorithm::Sha512)
    } else if s == "adler32"@ {
        Some(ChecksumAlgorithm::Adler32)
    } else if s == "blake2b"@ {
        Some(ChecksumAlgorithm::Blake2b)
    } else {
        None
    }
}

/// The algorithm and value of a checksum string (see `parse_checksum`).
pub open spec fn parsed_checksum(s: Seq<char>, byte_len: nat) -> Option<(ChecksumAlgorithm, Seq<char>)> {
    match first_index_of(s, ':') {
        Some(k) => match algorithm_named(s.subrange(0, k)) {
            Some(a) => Some((a, s.subrange(k + 1, s.len() as int))),
            None => None,
        },
        None => Some((algorithm_by_length(byte_len), s)),
    }
}

/// Split a checksum string into its algorithm and value. With a `:`, the
/// text before the first one names the algorithm (an unknown name is an
/// error) and the rest is the value; without one, the algorithm follows from
/// the length in bytes (64: SHA-256, 128: SHA-512, 8: Adler-32, else SHA-256).
pub fn parse_checksum(checksum_str: &str) -> (r: Result<(ChecksumAlgorithm, String), String>)
    ensures
        r is Ok <==> parsed_checksum(checksum_str@, checksum_str.len() as nat) is Some,
        r is Ok ==> r->Ok_0.0 == parsed_checksum(checksum_str@, checksum_str.len() as nat)->Some_0.0
            && r->Ok_0.1@ == parsed_checksum(checksum_str@, checksum_str.len() as nat)->Some_0.1,
{
    let v = chars_of(checksum_str);
    let mut k: usize = 0;
    while k < v.len() && v[k] != ':'
        invariant
            k <= v@.len(),
            v@ == checksum_str@,
            forall|j: int| 0 <= j < k ==> v@[j] != ':',
        decreases v@.len() - k,
    {
        k = k + 1;
    }
    if k == v.len() {
        let byte_len = checksum_str.len();
        let algo = if byte_len == 64 {
            ChecksumAlgorithm::Sha256
        } else if byte_len == 128 {
            ChecksumAlgorithm::Sha512
        } else if byte_len == 8 {
            ChecksumAlgorithm::Adler32
        } else {
            ChecksumAlgorithm::Sha256
        };
        assert(!checksum_str@.contains(':'));
        assert(v@.subrange(0, v@.len() as int) =~= v@);
        return Ok((algo, string_of(&v, 0, v.len())));
    }
    proof {
        let s = checksum_str@;
        assert(s.contains(':')) by {
            assert(s[k as int] == ':');
        }
        let c = choose|i: int| 0 <= i < s.len() && s[i] == ':' && forall|j: int| 0 <= j < i ==> s[j] != ':';
        assert(exists|i: int| 0 <= i < s.len() && s[i] == ':' && forall|j: int| 0 <= j < i ==> s[j] != ':') by {
            assert(s[k as int] == ':');
        }
        if c < k {
            assert(s[c] != ':');
        }
        if c > k {
            assert(s[k as int] != ':');
        }
    }
    let name = string_of(&v, 0, k);
    let value = string_of(&v, k + 1, v.len());
    let ns = name.as_str();
    let algo = if str_equal(ns, "sha256") {
        ChecksumAlgorithm::Sha256
    } else if str_equal(ns, "sha512") {
        ChecksumAlgorithm::Sha512
    } else if str_equal(ns, "adler32") {
        ChecksumAlgorithm::Adler32
    } else if str_equal(ns, "blake2b") {
        ChecksumAlgorithm::Blake2b
    } else {
        return Err("Unknown checksum algorithm".to_string());
    };
    Ok((algo, value))
}

/// The tagged checksum string of `data` under `a`, when `a` is implemented.
pub open spec fn checksum_string(data: Seq<u8>, a: ChecksumAlgorithm) -> Option<Seq<char>> {
    match a {
        ChecksumAlgorithm::Sha256 => Some("sha256:"@ + hex_of(sha256_of(data))),
        ChecksumAlgorithm::Sha512 => Some("sha512:"@ + hex_of(sha512_of(data))),
        ChecksumAlgorithm::Adler32 => Some("adler32:"@ + hex8(adler32_of(data))),
        ChecksumAlgorithm::Blake2b => None,
    }
}

/// The checksum of `data` as `<algorithm>:<lower-case hex>`; Blake2b is not
/// implemented and fails.
pub fn calculate_checksum_bytes(data: &[u8], algorithm: ChecksumAlgorithm) -> (r: Result<String, String>)
    ensures
        r is Ok <==> checksum_string(data@, algorithm) is Some,
        r is Ok ==> r->Ok_0@ == checksum_string(data@, algorithm)->Some_0,
{
    match algorithm {
        ChecksumAlgorithm::Sha256 => {
            let mut s = String::from_str("sha256:");
            s.append(hex_encode(sha256(data).as_slice()).as_str());
            Ok(s)
        },
        ChecksumAlgorithm::Sha512 => {
            let mut s = String::from_str("sha512:");
            s.append(hex_encode(sha512(data).as_slice()).as_str());
            Ok(s)
        },
        ChecksumAlgorithm::Adler32 => {
            let mut s = String::from_str("adler32:");
            s.append(format_hex8(adler32(data)).as_str());
            Ok(s)
        },
        ChecksumAlgorithm::Blake2b => Err("Blake2b checksum not implemented".to_string()),
    }
}

/// The hex digest of `data` under `a`, when `a` is implemented.
pub open spec fn digest_hex(data: Seq<u8>, a: ChecksumAlgorithm) -> Option<Seq<char>> {
    match a {
        ChecksumAlgorithm::Sha256 => Some(hex_of(sha256_of(data))),
        ChecksumAlgorithm::Sha512 => Some(hex_of(sha512_of(data))),
        ChecksumAlgorithm::Adler32 => Some(hex8(adler32_of(data))),
        ChecksumAlgorithm::Blake2b => None,
    }
}

/// Whether `data` matches a checksum string: parse it, compute the digest
/// with its algorithm, and compare the hex values.
pub fn verify_checksum(data: &[u8], checksum_str: &str) -> (r: Result<bool, String>)
    ensures
        match parsed_checksum(checksum_str@, checksum_str.len() as nat) {
            None => r is Err,
            Some((a, expected)) => match digest_hex(data@, a) {
                None => r is Err,
                Some(h) => r == Ok::<bool, String>(h == expected),
            },
        },
{
    let (algo, expected) = match parse_checksum(checksum_str) {
        Ok(p) => p,
        Err(e) => {
            return Err(e);
        },
    };
    let actual = match algo {
        ChecksumAlgorithm::Sha256 => hex_encode(sha256(data).as_slice()),
        ChecksumAlgorithm::Sha512 => hex_encode(sha512(data).as_slice()),
        ChecksumAlgorithm::Adler32 => format_hex8(adler32(data)),
        ChecksumAlgorithm::Blake2b => {
            return Err("Checksum calculation failed: Blake2b checksum not implemented".to_string());
        },
    };
    let r = str_equal(actual.as_str(), expected.as_str());
    Ok(r)
}

} // verus!
