//! Validation tiers and what each does when a check fails.
use crate::chain::{hex_digit, hex_digit_char};
use crate::error::FlavorError;
use crate::text::{chars_of, lower_of, lowercase, str_equal, trim_range, trimmed};
use vstd::prelude::*;

verus! {

/// How strictly a package is checked before it runs.
#[derive(Debug, Clone, Copy, PartialEq, Eq, Structural)]
pub enum ValidationLevel {
    Strict,
    Standard,
    Relaxed,
    Minimal,
    Off,
}

/// The tier a name selects, compared in lower case.
pub open spec fn level_named(s: Seq<char>) -> Option<ValidationLevel> {
    level_of_lowered(lower_of(s))
}

/// The tier a lower-case name selects.
pub open spec fn level_of_lowered(l: Seq<char>) -> Option<ValidationLevel> {
    if l == "strict"@ {
        Some(ValidationLevel::Strict)
    } else if l == "standard"@ {
        Some(ValidationLevel::Standard)
    } else if l == "relaxed"@ {
        Some(ValidationLevel::Relaxed)
    } else if l == "minimal"@ {
        Some(ValidationLevel::Minimal)
    } else if l == "none"@ {
        Some(ValidationLevel::Off)
    } else {
        None
    }
}

pub open spec fn level_name(l: ValidationLevel) -> Seq<char> {
    match l {
        ValidationLevel::Strict => "strict"@,
        ValidationLevel::Standard => "standard"@,
        ValidationLevel::Relaxed => "relaxed"@,
        ValidationLevel::Minimal => "minimal"@,
        ValidationLevel::Off => "none"@,
    }
}

impl ValidationLevel {
    /// The tier named by `s` in any case; `None` for other names.
    pub fn parse(s: &str) -> (r: Option<ValidationLevel>)
        ensures
            r == level_named(s@),
    {
        let l = lowercase(s);
        Self::level_from_lowered(l.as_str())
    }

    /// The tier a lower-case name selects.
    pub fn level_from_lowered(ls: &str) -> (r: Option<ValidationLevel>)
        ensures
            r == level_of_lowered(ls@),
    {
        if str_equal(ls, "strict") {
            Some(ValidationLevel::Strict)
        } else if str_equal(ls, "standard") {
            Some(ValidationLevel::Standard)
        } else if str_equal(ls, "relaxed") {
            Some(ValidationLevel::Relaxed)
        } else if str_equal(ls, "minimal") {
            Some(ValidationLevel::Minimal)
        } else if str_equal(ls, "none") {
            Some(ValidationLevel::Off)
        } else {
            None
        }
    }

    /// The tier's lower-case name.
    pub fn as_str(&self) -> (r: &'static str)
        ensures
            r@ == level_name(*self),
    {
        match self {
            ValidationLevel::Strict => "strict",
            ValidationLevel::Standard => "standard",
            ValidationLevel::Relaxed => "relaxed",
            ValidationLevel::Minimal => "minimal",
            ValidationLevel::Off => "none",
        }
    }
}

/// The tier selected by the value of `FLAVOR_VALIDATION` (absent or unknown: standard).
pub fn validation_level_from(value: Option<&str>) -> (r: ValidationLevel)
    ensures
        r == match value {
            Some(v) => match level_named(v@) {
                Some(l) => l,
                None => ValidationLevel::Standard,
            },
            None => ValidationLevel::Standard,
        },
{
    match value {
        Some(v) => match ValidationLevel::parse(v) {
            Some(l) => l,
            None => ValidationLevel::Standard,
        },
        None => ValidationLevel::Standard,
    }
}

/// What a failed check leads to.
#[derive(Debug, Clone, Copy, PartialEq, Eq, Structural)]
pub enum Outcome {
    /// The check is not made at this tier.
    Skip,
    /// Continue after a warning in the log.
    Warn,
    /// Continue after a security warning on stderr.
    WarnLoudly,
    /// Stop with an error.
    Fatal,
}

/// The checks whose failure the tiers treat differently.
#[derive(Debug, Clone, Copy, PartialEq, Eq, Structural)]
pub enum Check {
    IndexChecksum,
    MetadataChecksum,
    Signature,
    CachedChecksum,
}

/// The propagation policy, tier by tier.
pub open spec fn policy(level: ValidationLevel, check: Check) -> Outcome {
    match check {
        Check::IndexChecksum => match level {
            ValidationLevel::Off => Outcome::Skip,
            ValidationLevel::Strict => Outcome::Fatal,
            _ => Outcome::Warn,
        },
        Check::MetadataChecksum => match level {
            ValidationLevel::Off => Outcome::Skip,
            _ => Outcome::Fatal,
        },
        Check::Signature => match level {
            ValidationLevel::Off => Outcome::Skip,
            ValidationLevel::Standard => Outcome::WarnLoudly,
            ValidationLevel::Strict => Outcome::Fatal,
            _ => Outcome::Warn,
        },
        Check::CachedChecksum => match level {
            ValidationLevel::Standard => Outcome::WarnLoudly,
            ValidationLevel::Strict => Outcome::Fatal,
            _ => Outcome::Warn,
        },
    }
}

/// What happens when `check` fails at `level`.
pub fn on_failure(level: ValidationLevel, check: Check) -> (r: Outcome)
    ensures
        r == policy(level, check),
{
    match check {
        Check::IndexChecksum => match level {
            ValidationLevel::Off => Outcome::Skip,
            ValidationLevel::Strict => Outcome::Fatal,
            _ => Outcome::Warn,
        },
        Check::MetadataChecksum => match level {
            ValidationLevel::Off => Outcome::Skip,
            _ => Outcome::Fatal,
        },
        Check::Signature => match level {
            ValidationLevel::Off => Outcome::Skip,
            ValidationLevel::Standard => Outcome::WarnLoudly,
            ValidationLevel::Strict => Outcome::Fatal,
            _ => Outcome::Warn,
        },
        Check::CachedChecksum => match level {
            ValidationLevel::Standard => Outcome::WarnLoudly,
            ValidationLevel::Strict => Outcome::Fatal,
            _ => Outcome::Warn,
        },
    }
}

/// Whether a package whose seal check gave `signature_valid` may run at
/// `level`: it may unless the seal failed under the strict tier.
pub fn signature_gate(level: ValidationLevel, signature_valid: bool) -> (r: Result<Outcome, FlavorError>)
    ensures
        signature_valid ==> r == Ok::<Outcome, FlavorError>(Outcome::Skip),
        !signature_valid && policy(level, Check::Signature) == Outcome::Fatal ==> r == Err::<Outcome, FlavorError>(FlavorError::SignatureInvalid),
        !signature_valid && policy(level, Check::Signature) != Outcome::Fatal ==> r == Ok::<Outcome, FlavorError>(policy(level, Check::Signature)),
{
    if signature_valid {
        return Ok(Outcome::Skip);
    }
    match on_failure(level, Check::Signature) {
        Outcome::Fatal => Err(FlavorError::SignatureInvalid),
        o => Ok(o),
    }
}

/// Eight lower-case hex digits of `x`, most significant first.
pub open spec fn hex8(x: u32) -> Seq<char> {
    Seq::new(8, |i: int| hex_digit(((x as int) / pow16(7 - i)) % 16))
}

pub open spec fn pow16(k: int) -> int
    decreases k,
{
    if k <= 0 {
        1
    } else {
        16 * pow16(k - 1)
    }
}

proof fn lemma_pow16_pos(k: int)
    ensures
        pow16(k) >= 1,
    decreases k,
{
    if k > 0 {
        lemma_pow16_pos(k - 1);
    }
}

/// `x` as eight lower-case hex digits (`{:08x}`).
pub fn format_hex8(x: u32) -> (r: String)
    ensures
        r@ == hex8(x),
{
    let mut r = String::new();
    let mut i: u32 = 0;
    let mut div: u32 = 0x1000_0000;
    proof {
        reveal_with_fuel(pow16, 9);
    }
    while i < 8
        invariant
            i <= 8,
            div >= 1,
            div as int == pow16(7 - i),
            r@.len() == i,
            forall|j: int| 0 <= j < i ==> r@[j] == hex_digit(((x as int) / pow16(7 - j)) % 16),
        decreases 8 - i,
    {
        let d = ((x / div) % 16) as u8;
        crate::text::push_char(&mut r, hex_digit_char(d));
        if i < 7 {
            assert(pow16(7 - i) == 16 * pow16(7 - i - 1));
            assert(pow16(7 - i - 1) >= 1) by {
                lemma_pow16_pos(7 - i - 1);
            }
            div = div / 16;
        } else {
            assert(pow16(7 - (i + 1)) == 1);
        }
        i = i + 1;
    }
    assert(r@ =~= hex8(x));
    r
}

/// Whether the extracted cache belongs to this package: the stored checksum
/// text (trimmed) must be the index checksum as eight hex digits. A missing
/// file means an invalid cache; a mismatch is fatal under the strict tier.
pub fn validate_package_checksum(
    stored: Option<&str>,
    current_checksum: u32,
    level: ValidationLevel,
) -> (r: Result<bool, FlavorError>)
    ensures
        stored is None ==> r == Ok::<bool, FlavorError>(false),
        stored is Some && trimmed(stored->Some_0@) == hex8(current_checksum) ==> r == Ok::<bool, FlavorError>(true),
        stored is Some && trimmed(stored->Some_0@) != hex8(current_checksum) ==> (if level == ValidationLevel::Strict {
            r == Err::<bool, FlavorError>(FlavorError::ChecksumMismatch)
        } else {
            r == Ok::<bool, FlavorError>(false)
        }),
{
    match stored {
        None => Ok(false),
        Some(text) => {
            let v = chars_of(text);
            let (b, e) = trim_range(&v, 0, v.len());
            assert(v@.subrange(0, v@.len() as int) =~= v@);
            let t = crate::text::string_of(&v, b, e);
            let expected = format_hex8(current_checksum);
            if str_equal(t.as_str(), expected.as_str()) {
                Ok(true)
            } else {
                match level {
                    ValidationLevel::Strict => Err(FlavorError::ChecksumMismatch),
                    _ => Ok(false),
                }
            }
        },
    }
}

} // verus!
