//! The decisions of a launch: the extraction lock, the wait for a peer
//! extractor, and the order of phases from verification to execution. The
//! caller performs each phase's outside work and reports what happened.
use crate::error::FlavorError;
use crate::text::replace_all;
use crate::validation::{policy, signature_gate, Check, Outcome, ValidationLevel};
use vstd::prelude::*;

verus! {

/// The value of a string of decimal digits.
pub open spec fn digits_value(s: Seq<char>) -> int
    decreases s.len(),
{
    if s.len() == 0 {
        0
    } else {
        10 * digits_value(s.drop_last()) + (s.last() as int - 48)
    }
}

pub open spec fn all_digits(s: Seq<char>) -> bool {
    forall|i: int| 0 <= i < s.len() ==> '0' <= #[trigger] s[i] && s[i] <= '9'
}

/// The process id a lock file or a staging directory name holds: optional
/// surrounding white space, an optional `+`, then decimal digits that fit a `u32`.
pub open spec fn pid_in(s: Seq<char>) -> Option<u32> {
    let t = crate::text::trimmed(s);
    let d = if t.len() > 0 && t[0] == '+' {
        t.drop_first()
    } else {
        t
    };
    if d.len() > 0 && all_digits(d) && digits_value(d) <= u32::MAX {
        Some(digits_value(d) as u32)
    } else {
        None
    }
}

proof fn lemma_digits_grow(s: Seq<char>)
    requires
        all_digits(s),
        s.len() > 0,
    ensures
        digits_value(s) >= digits_value(s.drop_last()),
        digits_value(s) >= 0,
    decreases s.len(),
{
    assert(s[s.len() - 1] >= '0');
    if s.len() > 1 {
        assert forall|i: int| 0 <= i < s.drop_last().len() implies '0' <= #[trigger] s.drop_last()[i]
            && s.drop_last()[i] <= '9' by {
            assert(s.drop_last()[i] == s[i]);
        }
        lemma_digits_grow(s.drop_last());
    }
}

/// Read a process id (see `pid_in`).
pub fn parse_pid(text: &str) -> (r: Option<u32>)
    ensures
        r == pid_in(text@),
{
    let v = crate::text::chars_of(text);
    let (b, e) = crate::text::trim_range(&v, 0, v.len());
    assert(v@.subrange(0, v@.len() as int) =~= v@);
    let ghost t = v@.subrange(b as int, e as int);
    let mut start = b;
    if b < e && v[b] == '+' {
        start = b + 1;
        assert(t.drop_first() =~= v@.subrange(start as int, e as int));
    }
    let ghost d = v@.subrange(start as int, e as int);
    assert(crate::text::trimmed(text@) == t);
    assert(d == (if t.len() > 0 && t[0] == '+' { t.drop_first() } else { t }));
    if start == e {
        return None;
    }
    let mut value: u64 = 0;
    let mut i: usize = start;
    while i < e
        invariant
            start <= i <= e <= v@.len(),
            d == v@.subrange(start as int, e as int),
            crate::text::trimmed(text@) == t,
            d == (if t.len() > 0 && t[0] == '+' { t.drop_first() } else { t }),
            all_digits(v@.subrange(start as int, i as int)),
            value == digits_value(v@.subrange(start as int, i as int)),
            value <= u32::MAX,
        decreases e - i,
    {
        let c = v[i];
        let ghost pre = v@.subrange(start as int, i as int);
        let ghost now = v@.subrange(start as int, i + 1);
        assert(now.drop_last() =~= pre);
        if c < '0' || c > '9' {
            assert(!all_digits(d)) by {
                assert(d[i - start] == c);
            }
            return None;
        }
        let digit = (c as u32 - 48) as u64;
        value = value * 10 + digit;
        assert(all_digits(now)) by {
            assert forall|k: int| 0 <= k < now.len() implies '0' <= #[trigger] now[k] && now[k] <= '9' by {
                if k < pre.len() {
                    assert(now[k] == pre[k]);
                }
            }
        }
        if value > 0xFFFF_FFFF {
            proof {
                assert forall|k: int| i + 1 <= k <= e implies digits_value(#[trigger] v@.subrange(start as int, k)) > u32::MAX || !all_digits(v@.subrange(start as int, k)) by {
                    lemma_prefix_value_grows(v@, start as int, i + 1, k);
                }
                assert(v@.subrange(start as int, e as int) =~= d);
            }
            return None;
        }
        i = i + 1;
    }
    Some(value as u32)
}

/// A longer digit string is worth at least as much as its prefix.
proof fn lemma_prefix_value_grows(v: Seq<char>, start: int, j: int, k: int)
    requires
        0 <= start < j <= k <= v.len(),
    ensures
        all_digits(v.subrange(start, k)) ==> digits_value(v.subrange(start, k)) >= digits_value(
            v.subrange(start, j),
        ),
    decreases k - j,
{
    if k > j && all_digits(v.subrange(start, k)) {
        assert(v.subrange(start, k).drop_last() =~= v.subrange(start, k - 1));
        assert(all_digits(v.subrange(start, k - 1))) by {
            assert forall|m: int| 0 <= m < k - 1 - start implies '0' <= #[trigger] v.subrange(start, k - 1)[m] && v.subrange(start, k - 1)[m] <= '9' by {
                assert(v.subrange(start, k - 1)[m] == v.subrange(start, k)[m]);
            }
        }
        lemma_prefix_value_grows(v, start, j, k - 1);
        lemma_digits_grow(v.subrange(start, k));
    }
}

/// What to do about an existing lock file before trying to create one.
#[derive(Debug, Clone, Copy, PartialEq, Eq, Structural)]
pub enum LockAction {
    /// No lock file: create it.
    Create,
    /// The lock file names no live process: remove it, then create it.
    RemoveStaleThenCreate,
    /// A live process holds the lock: do not extract.
    LeaveToOwner,
}

/// Decide on a lock file: `owner` is the process id it names (if it names
/// one) and `owner_alive` whether that process runs.
pub fn lock_action(lock_exists: bool, owner: Option<u32>, owner_alive: bool) -> (r: LockAction)
    ensures
        !lock_exists ==> r == LockAction::Create,
        lock_exists && owner is Some && owner_alive ==> r == LockAction::LeaveToOwner,
        lock_exists && !(owner is Some && owner_alive) ==> r == LockAction::RemoveStaleThenCreate,
{
    if !lock_exists {
        LockAction::Create
    } else {
        match owner {
            Some(_) => if owner_alive {
                LockAction::LeaveToOwner
            } else {
                LockAction::RemoveStaleThenCreate
            },
            None => LockAction::RemoveStaleThenCreate,
        }
    }
}

/// How an exclusive create of the lock file went.
#[derive(Debug, Clone, Copy, PartialEq, Eq, Structural)]
pub enum CreateOutcome {
    Created,
    AlreadyExists,
    Failed,
}

/// Whether this process became the extractor: only when it created the lock
/// itself; a racing creator wins otherwise; other failures are errors.
pub fn lock_acquired(outcome: CreateOutcome) -> (r: Result<bool, FlavorError>)
    ensures
        outcome == CreateOutcome::Created ==> r == Ok::<bool, FlavorError>(true),
        outcome == CreateOutcome::AlreadyExists ==> r == Ok::<bool, FlavorError>(false),
        outcome == CreateOutcome::Failed ==> r is Err,
{
    match outcome {
        CreateOutcome::Created => Ok(true),
        CreateOutcome::AlreadyExists => Ok(false),
        CreateOutcome::Failed => Err(FlavorError::Io("cannot create the extraction lock".to_string())),
    }
}

/// One poll of the wait for a peer extractor.
#[derive(Debug, Clone, Copy, PartialEq, Eq, Structural)]
pub enum WaitAction {
    /// The lock is gone: re-validate the cache.
    Recheck,
    /// Sleep one interval and poll again.
    Sleep,
    /// Give up.
    TimedOut,
}

/// Number of 100 ms polls in a timeout of `timeout_secs` seconds.
pub open spec fn max_polls(timeout_secs: u64) -> int {
    timeout_secs * 10
}

/// Poll number `attempt` (from zero) of a wait of `timeout_secs` seconds.
pub fn wait_step(attempt: u64, timeout_secs: u64, lock_exists: bool) -> (r: WaitAction)
    requires
        timeout_secs <= u64::MAX / 10,
    ensures
        attempt >= max_polls(timeout_secs) ==> r == WaitAction::TimedOut,
        attempt < max_polls(timeout_secs) && !lock_exists ==> r == WaitAction::Recheck,
        attempt < max_polls(timeout_secs) && lock_exists ==> r == WaitAction::Sleep,
{
    if attempt >= timeout_secs * 10 {
        WaitAction::TimedOut
    } else if !lock_exists {
        WaitAction::Recheck
    } else {
        WaitAction::Sleep
    }
}

/// The phases of a launch.
#[derive(Debug, Clone, Copy, PartialEq, Eq, Structural)]
pub enum LaunchPhase {
    /// Check the integrity seal.
    Verify,
    /// Check whether the workenv holds this package's extraction.
    CheckCache,
    /// Try to become the extractor.
    AcquireLock,
    /// Extract into staging, run setup, move into place, release the lock.
    Extract,
    /// Wait for the peer extractor to release the lock.
    WaitForPeer,
    /// Check the workenv again after the peer finished.
    Recheck,
    /// Compose the environment and run the command.
    Execute,
}

/// What the caller observed while performing a phase.
#[derive(Debug, Clone, Copy, PartialEq, Eq, Structural)]
pub enum LaunchEvent {
    Verified { signature_valid: bool, metadata_checksum_valid: bool },
    CacheChecked { valid: bool },
    LockResult { acquired: bool },
    ExtractionFinished,
    PeerFinished { timed_out: bool },
    Rechecked { valid: bool },
}

/// The phase after `phase` given `event`.
pub open spec fn next_phase(
    level: ValidationLevel,
    use_cache: bool,
    phase: LaunchPhase,
    event: LaunchEvent,
) -> Result<LaunchPhase, FlavorError> {
    match (phase, event) {
        (LaunchPhase::Verify, LaunchEvent::Verified { signature_valid, metadata_checksum_valid }) => if !metadata_checksum_valid
            && policy(level, Check::MetadataChecksum) == Outcome::Fatal {
            Err(FlavorError::ChecksumMismatch)
        } else if !signature_valid && policy(level, Check::Signature) == Outcome::Fatal {
            Err(FlavorError::SignatureInvalid)
        } else {
            Ok(LaunchPhase::CheckCache)
        },
        (LaunchPhase::CheckCache, LaunchEvent::CacheChecked { valid }) => if valid && use_cache {
            Ok(LaunchPhase::Execute)
        } else {
            Ok(LaunchPhase::AcquireLock)
        },
        (LaunchPhase::AcquireLock, LaunchEvent::LockResult { acquired }) => if acquired {
            Ok(LaunchPhase::Extract)
        } else {
            Ok(LaunchPhase::WaitForPeer)
        },
        (LaunchPhase::Extract, LaunchEvent::ExtractionFinished) => Ok(LaunchPhase::Execute),
        (LaunchPhase::WaitForPeer, LaunchEvent::PeerFinished { timed_out }) => if timed_out {
            Err(FlavorError::LockContention)
        } else {
            Ok(LaunchPhase::Recheck)
        },
        (LaunchPhase::Recheck, LaunchEvent::Rechecked { valid }) => if valid {
            Ok(LaunchPhase::Execute)
        } else {
            Err(FlavorError::CacheInvalidAfterPeer)
        },
        _ => Ok(phase),
    }
}

/// Advance a launch: `level` is the validation tier and `use_cache` whether
/// a valid workenv may be reused. An event that does not belong to the
/// phase leaves it unchanged.
pub fn launch_step(level: ValidationLevel, use_cache: bool, phase: LaunchPhase, event: LaunchEvent) -> (r: Result<LaunchPhase, FlavorError>)
    ensures
        r == next_phase(level, use_cache, phase, event),
{
    match (phase, event) {
        (LaunchPhase::Verify, LaunchEvent::Verified { signature_valid, metadata_checksum_valid }) => {
            if !metadata_checksum_valid {
                match crate::validation::on_failure(level, Check::MetadataChecksum) {
                    Outcome::Fatal => {
                        return Err(FlavorError::ChecksumMismatch);
                    },
                    _ => {},
                }
            }
            match signature_gate(level, signature_valid) {
                Ok(_) => Ok(LaunchPhase::CheckCache),
                Err(e) => Err(e),
            }
        },
        (LaunchPhase::CheckCache, LaunchEvent::CacheChecked { valid }) => if valid && use_cache {
            Ok(LaunchPhase::Execute)
        } else {
            Ok(LaunchPhase::AcquireLock)
        },
        (LaunchPhase::AcquireLock, LaunchEvent::LockResult { acquired }) => if acquired {
            Ok(LaunchPhase::Extract)
        } else {
            Ok(LaunchPhase::WaitForPeer)
        },
        (LaunchPhase::Extract, LaunchEvent::ExtractionFinished) => Ok(LaunchPhase::Execute),
        (LaunchPhase::WaitForPeer, LaunchEvent::PeerFinished { timed_out }) => if timed_out {
            Err(FlavorError::LockContention)
        } else {
            Ok(LaunchPhase::Recheck)
        },
        (LaunchPhase::Recheck, LaunchEvent::Rechecked { valid }) => if valid {
            Ok(LaunchPhase::Execute)
        } else {
            Err(FlavorError::CacheInvalidAfterPeer)
        },
        _ => Ok(phase),
    }
}

/// Only a launch that created the lock itself reaches the extraction phase,
/// the one that runs the setup commands; a launch that found a valid cache
/// goes straight to execution and extracts nothing.
pub proof fn lemma_only_lock_holder_extracts(
    level: ValidationLevel,
    use_cache: bool,
    phase: LaunchPhase,
    event: LaunchEvent,
)
    ensures
        next_phase(level, use_cache, phase, event) == Ok::<LaunchPhase, FlavorError>(LaunchPhase::Extract)
            ==> (phase == LaunchPhase::Extract || (phase == LaunchPhase::AcquireLock && event
            == LaunchEvent::LockResult { acquired: true })),
        phase == LaunchPhase::CheckCache && use_cache ==> next_phase(
            level,
            use_cache,
            phase,
            LaunchEvent::CacheChecked { valid: true },
        ) == Ok::<LaunchPhase, FlavorError>(LaunchPhase::Execute),
{
}

/// A `#!` script whose first line names the staging directory, with that
/// prefix replaced by the final workenv path in its first line only.
pub open spec fn rewritten_shebang(content: Seq<u8>, old: Seq<u8>, new: Seq<u8>) -> Option<Seq<u8>> {
    if content.len() >= 2 && content[0] == 0x23 && content[1] == 0x21 {
        match first_newline(content) {
            Some(p) => {
                let line = content.subrange(0, p);
                if crate::text::occurs_in(line, old) {
                    Some(replace_all(line, old, new) + content.subrange(p, content.len() as int))
                } else {
                    None
                }
            },
            None => None,
        }
    } else {
        None
    }
}

/// Position of the first newline byte.
pub open spec fn first_newline(s: Seq<u8>) -> Option<int> {
    if exists|i: int| 0 <= i < s.len() && s[i] == 0x0A {
        Some(choose|i: int| 0 <= i < s.len() && s[i] == 0x0A && forall|j: int| 0 <= j < i ==> s[j] != 0x0A)
    } else {
        None
    }
}

} // verus!

verus! {

pub(crate) fn bytes_match_at(v: &[u8], lo: usize, p: &[u8]) -> (r: bool)
    requires
        lo <= v@.len(),
    ensures
        r == (lo + p@.len() <= v@.len() && v@.subrange(lo as int, lo + p@.len()) == p@),
{
    let n = v.len();
    if p.len() > n - lo {
        return false;
    }
    let mut i: usize = 0;
    while i < p.len()
        invariant
            lo + p@.len() <= v@.len(),
            n == v@.len(),
            i <= p@.len(),
            forall|j: int| 0 <= j < i ==> v@[lo + j] == p@[j],
        decreases p@.len() - i,
    {
        if v[lo + i] != p[i] {
            assert(v@.subrange(lo as int, lo + p@.len())[i as int] != p@[i as int]);
            return false;
        }
        i = i + 1;
    }
    assert(v@.subrange(lo as int, lo + p@.len()) =~= p@);
    true
}

/// Replace every occurrence of a non-empty `pat` in `s` by `rep`, and say
/// whether there was one.
fn replace_bytes(s: &[u8], pat: &[u8], rep: &[u8]) -> (r: (Vec<u8>, bool))
    requires
        pat@.len() > 0,
    ensures
        r.0@ == replace_all(s@, pat@, rep@),
        r.1 == crate::text::occurs_in(s@, pat@),
{
    let mut out: Vec<u8> = Vec::new();
    let mut found = false;
    let mut i: usize = 0;
    let n = s.len();
    assert(s@.subrange(0, n as int) =~= s@);
    while i < n
        invariant
            pat@.len() > 0,
            n == s@.len(),
            i <= n,
            out@ + replace_all(s@.subrange(i as int, n as int), pat@, rep@) == replace_all(s@, pat@, rep@),
            found ==> crate::text::occurs_in(s@, pat@),
            !found ==> forall|k: int| 0 <= k < i && k + pat@.len() <= n ==> #[trigger] s@.subrange(k, k + pat@.len()) != pat@,
        decreases n - i,
    {
        let ghost rest = s@.subrange(i as int, n as int);
        if bytes_match_at(s, i, pat) {
            assert(rest.subrange(0, pat@.len() as int) =~= s@.subrange(i as int, i + pat@.len()));
            assert(rest.subrange(pat@.len() as int, rest.len() as int) =~= s@.subrange(i + pat@.len(), n as int));
            let ghost o = out@;
            crate::codec::append_bytes(&mut out, rep);
            assert(out@ + replace_all(s@.subrange(i + pat@.len(), n as int), pat@, rep@)
                =~= o + (rep@ + replace_all(s@.subrange(i + pat@.len(), n as int), pat@, rep@)));
            assert(s@.subrange(i as int, i + pat@.len()) == pat@);
            assert(crate::text::occurs_in(s@, pat@));
            found = true;
            i = i + pat.len();
        } else {
            proof {
                if rest.len() >= pat@.len() {
                    assert(rest.subrange(0, pat@.len() as int) =~= s@.subrange(i as int, i + pat@.len()));
                }
            }
            assert(rest.drop_first() =~= s@.subrange(i + 1, n as int));
            let ghost o = out@;
            out.push(s[i]);
            assert(out@ + replace_all(s@.subrange(i + 1, n as int), pat@, rep@)
                =~= o + (seq![s@[i as int]] + replace_all(s@.subrange(i + 1, n as int), pat@, rep@)));
            i = i + 1;
        }
    }
    assert(s@.subrange(n as int, n as int) =~= Seq::<u8>::empty());
    assert(out@ + Seq::<u8>::empty() =~= out@);
    (out, found)
}

} // verus!

verus! {

/// Rewrite the first line of a `#!` script that names the staging directory
/// `old` so that it names the final workenv `new`; `None` when the file is
/// no such script and stays as it is.
pub fn rewrite_shebang(content: &[u8], old: &[u8], new: &[u8]) -> (r: Option<Vec<u8>>)
    requires
        old@.len() > 0,
    ensures
        r is Some <==> rewritten_shebang(content@, old@, new@) is Some,
        r is Some ==> r->Some_0@ == rewritten_shebang(content@, old@, new@)->Some_0,
{
    let n = content.len();
    if n < 2 || content[0] != 0x23 || content[1] != 0x21 {
        return None;
    }
    let mut p: usize = 0;
    while p < n && content[p] != 0x0A
        invariant
            p <= n,
            n == content@.len(),
            forall|j: int| 0 <= j < p ==> content@[j] != 0x0A,
        decreases n - p,
    {
        p = p + 1;
    }
    if p == n {
        return None;
    }
    proof {
        assert(exists|i: int| 0 <= i < content@.len() && content@[i] == 0x0A) by {
            assert(content@[p as int] == 0x0A);
        }
        let c = choose|i: int|
            0 <= i < content@.len() && content@[i] == 0x0A && forall|j: int| 0 <= j < i ==> content@[j] != 0x0A;
        assert(exists|i: int|
            0 <= i < content@.len() && content@[i] == 0x0A && forall|j: int| 0 <= j < i ==> content@[j] != 0x0A) by {
            assert(content@[p as int] == 0x0A);
        }
        if c < p {
            assert(content@[c] != 0x0A);
        }
        if c > p {
            assert(content@[p as int] != 0x0A);
        }
        assert(first_newline(content@) == Some(p as int));
    }
    let line = vstd::slice::slice_subrange(content, 0, p);
    let (mut replaced, found) = replace_bytes(line, old, new);
    if !found {
        return None;
    }
    crate::codec::append_bytes(&mut replaced, vstd::slice::slice_subrange(content, p, n));
    Some(replaced)
}

} // verus!
