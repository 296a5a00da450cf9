//! Turning manifest slots into slot descriptors: operation lists, purpose
//! and lifecycle codes, and octal permission strings.
use crate::constants::{DEFAULT_FILE_PERMS, OP_GZIP, OP_TAR};
use crate::error::FlavorError;
use crate::metadata::ManifestSlot;
use crate::operations::packed_ops;
use crate::slots::{descriptor_mode, hash_prefix_u64, SlotDescriptor};
use crate::text::{chars_of, split_chars, split_on, str_equal, trim_range, trimmed};
use vstd::prelude::*;
use vstd::string::*;

verus! {

/// `s` without its leading `0` characters.
pub open spec fn strip_zeros(s: Seq<char>) -> Seq<char>
    decreases s.len(),
{
    if s.len() > 0 && s[0] == '0' {
        strip_zeros(s.drop_first())
    } else {
        s
    }
}

pub open spec fn octal_value(s: Seq<char>) -> int
    decreases s.len(),
{
    if s.len() == 0 {
        0
    } else {
        8 * octal_value(s.drop_last()) + (s.last() as int - 48)
    }
}

pub open spec fn all_octal(s: Seq<char>) -> bool {
    forall|i: int| 0 <= i < s.len() ==> '0' <= #[trigger] s[i] && s[i] <= '7'
}

/// The number that an octal string denotes once its leading zeros are
/// removed, read as `from_str_radix(_, 8)` reads it: an optional `+`, then
/// at least one octal digit, within `max`.
pub open spec fn octal_of(s: Seq<char>, max: int) -> Option<int> {
    radix8_of(strip_zeros(s), max)
}

/// The number an octal string denotes as `from_str_radix(_, 8)` reads it:
/// an optional `+`, then at least one octal digit, within `max`.
pub open spec fn radix8_of(t: Seq<char>, max: int) -> Option<int> {
    let d = if t.len() > 0 && t[0] == '+' {
        t.drop_first()
    } else {
        t
    };
    if d.len() > 0 && all_octal(d) && octal_value(d) <= max {
        Some(octal_value(d))
    } else {
        None
    }
}

proof fn lemma_octal_grows(v: Seq<char>, start: int, j: int, k: int)
    requires
        0 <= start < j <= k <= v.len(),
    ensures
        all_octal(v.subrange(start, k)) ==> octal_value(v.subrange(start, k)) >= octal_value(
            v.subrange(start, j),
        ),
    decreases k - j,
{
    if k > j && all_octal(v.subrange(start, k)) {
        assert(v.subrange(start, k).drop_last() =~= v.subrange(start, k - 1));
        assert(all_octal(v.subrange(start, k - 1))) by {
            assert forall|m: int| 0 <= m < k - 1 - start implies '0' <= #[trigger] v.subrange(start, k - 1)[m] && v.subrange(start, k - 1)[m] <= '7' by {
                assert(v.subrange(start, k - 1)[m] == v.subrange(start, k)[m]);
            }
        }
        lemma_octal_grows(v, start, j, k - 1);
        lemma_octal_nonneg(v.subrange(start, k - 1));
        assert(v.subrange(start, k)[k - 1 - start] >= '0');
    }
}

proof fn lemma_octal_nonneg(s: Seq<char>)
    requires
        all_octal(s),
    ensures
        octal_value(s) >= 0,
    decreases s.len(),
{
    if s.len() > 0 {
        assert(all_octal(s.drop_last())) by {
            assert forall|i: int| 0 <= i < s.drop_last().len() implies '0' <= #[trigger] s.drop_last()[i]
                && s.drop_last()[i] <= '7' by {
                assert(s.drop_last()[i] == s[i]);
            }
        }
        lemma_octal_nonneg(s.drop_last());
    }
}

/// Parse an octal string as `octal_of` describes, within `max`.
pub fn parse_octal(s: &str, max: u32) -> (r: Option<u32>)
    ensures
        r is Some <==> octal_of(s@, max as int) is Some,
        r is Some ==> r->Some_0 as int == octal_of(s@, max as int)->Some_0,
{
    parse_octal_digits(s, max, true)
}

/// Parse an octal string as `radix8_of` describes, within `max`.
pub fn parse_radix8(s: &str, max: u32) -> (r: Option<u32>)
    ensures
        r is Some <==> radix8_of(s@, max as int) is Some,
        r is Some ==> r->Some_0 as int == radix8_of(s@, max as int)->Some_0,
{
    parse_octal_digits(s, max, false)
}

fn parse_octal_digits(s: &str, max: u32, strip: bool) -> (r: Option<u32>)
    ensures
        ({
            let target = if strip { strip_zeros(s@) } else { s@ };
            &&& r is Some <==> radix8_of(target, max as int) is Some
            &&& r is Some ==> r->Some_0 as int == radix8_of(target, max as int)->Some_0
        }),
{
    let v = chars_of(s);
    let ghost target = if strip { strip_zeros(s@) } else { s@ };
    let mut b: usize = 0;
    assert(v@.subrange(0, v@.len() as int) =~= v@);
    if strip {
        while b < v.len() && v[b] == '0'
            invariant
                b <= v@.len(),
                v@ == s@,
                strip_zeros(s@) == strip_zeros(v@.subrange(b as int, v@.len() as int)),
            decreases v@.len() - b,
        {
            assert(v@.subrange(b as int, v@.len() as int).drop_first() =~= v@.subrange(b + 1, v@.len() as int));
            b = b + 1;
        }
    }
    let ghost t = v@.subrange(b as int, v@.len() as int);
    assert(target == t);
    let mut start = b;
    if b < v.len() && v[b] == '+' {
        start = b + 1;
        assert(t.drop_first() =~= v@.subrange(start as int, v@.len() as int));
    }
    let ghost d = v@.subrange(start as int, v@.len() as int);
    assert(d == (if t.len() > 0 && t[0] == '+' { t.drop_first() } else { t }));
    if start == v.len() {
        return None;
    }
    let mut value: u64 = 0;
    let mut i: usize = start;
    while i < v.len()
        invariant
            start < v@.len(),
            start <= i <= v@.len(),
            v@ == s@,
            target == t,
            target == (if strip { strip_zeros(s@) } else { s@ }),
            d == v@.subrange(start as int, v@.len() as int),
            d == (if t.len() > 0 && t[0] == '+' { t.drop_first() } else { t }),
            all_octal(v@.subrange(start as int, i as int)),
            value == octal_value(v@.subrange(start as int, i as int)),
            value <= max,
        decreases v@.len() - i,
    {
        let c = v[i];
        let ghost pre = v@.subrange(start as int, i as int);
        let ghost now = v@.subrange(start as int, i + 1);
        assert(now.drop_last() =~= pre);
        if c < '0' || c > '7' {
            assert(!all_octal(d)) by {
                assert(d[i - start] == c);
            }
            return None;
        }
        value = value * 8 + (c as u32 - 48) as u64;
        assert(all_octal(now)) by {
            assert forall|k: int| 0 <= k < now.len() implies '0' <= #[trigger] now[k] && now[k] <= '7' by {
                if k < pre.len() {
                    assert(now[k] == pre[k]);
                }
            }
        }
        if value > max as u64 {
            proof {
                lemma_octal_grows(v@, start as int, i + 1, v@.len() as int);
            }
            return None;
        }
        i = i + 1;
    }
    Some(value as u32)
}

/// Parse a directory mode such as "0755"; anything else is a manifest error.
pub fn parse_octal_mode(mode_str: &str) -> (r: Result<u32, FlavorError>)
    ensures
        r is Ok <==> octal_of(mode_str@, u32::MAX as int) is Some,
        r is Ok ==> r->Ok_0 as int == octal_of(mode_str@, u32::MAX as int)->Some_0,
{
    match parse_octal(mode_str, 0xFFFF_FFFF) {
        Some(m) => Ok(m),
        None => Err(FlavorError::Manifest("Invalid mode".to_string())),
    }
}

/// The slot's permission bits: its octal string if it parses as a `u16`,
/// else 0600.
pub open spec fn slot_permissions(p: Option<Seq<char>>) -> u16 {
    match p {
        Some(s) => match octal_of(s, u16::MAX as int) {
            Some(v) => v as u16,
            None => DEFAULT_FILE_PERMS,
        },
        None => DEFAULT_FILE_PERMS,
    }
}

/// Whether a slot's source names the package itself.
pub fn is_self_referential(source: &str) -> (r: bool)
    ensures
        r == (source@ == "$SELF"@),
{
    str_equal(source, "$SELF")
}

/// The codes of a comma-separated operation list ("tar", "gzip"; blank and
/// unknown entries skipped).
pub open spec fn listed_ops(parts: Seq<Seq<char>>) -> Seq<u8>
    decreases parts.len(),
{
    if parts.len() == 0 {
        Seq::empty()
    } else {
        let t = trimmed(parts.last());
        let rest = listed_ops(parts.drop_last());
        if t == "tar"@ {
            rest.push(OP_TAR)
        } else if t == "gzip"@ {
            rest.push(OP_GZIP)
        } else {
            rest
        }
    }
}

/// The operation codes a manifest's `operations` string declares.
pub open spec fn manifest_ops(s: Seq<char>) -> Seq<u8> {
    if s.len() == 0 || s == "none"@ || s == "raw"@ {
        Seq::empty()
    } else if s == "tgz"@ {
        seq![OP_TAR, OP_GZIP]
    } else {
        listed_ops(split_on(s, ','))
    }
}

fn manifest_operations(s: &str) -> (r: Vec<u8>)
    ensures
        r@ == manifest_ops(s@),
{
    if s.unicode_len() == 0 || str_equal(s, "none") || str_equal(s, "raw") {
        return Vec::new();
    }
    if str_equal(s, "tgz") {
        return vec![OP_TAR, OP_GZIP];
    }
    let v = chars_of(s);
    let parts = split_chars(&v, ',');
    let mut ops: Vec<u8> = Vec::new();
    let mut i: usize = 0;
    while i < parts.len()
        invariant
            i <= parts@.len(),
            v@ == s@,
            parts@.len() == split_on(v@, ',').len(),
            forall|k: int| 0 <= k < parts@.len() ==> #[trigger] parts@[k]@ == split_on(v@, ',')[k],
            ops@ == listed_ops(split_on(v@, ',').subrange(0, i as int)),
        decreases parts@.len() - i,
    {
        let ghost all = split_on(v@, ',');
        assert(all.subrange(0, i + 1).drop_last() =~= all.subrange(0, i as int));
        let pv = chars_of(parts[i].as_str());
        let (b, e) = trim_range(&pv, 0, pv.len());
        assert(pv@.subrange(0, pv@.len() as int) =~= pv@);
        let t = crate::text::string_of(&pv, b, e);
        if str_equal(t.as_str(), "tar") {
            ops.push(OP_TAR);
        } else if str_equal(t.as_str(), "gzip") {
            ops.push(OP_GZIP);
        }
        i = i + 1;
    }
    assert(split_on(v@, ',').subrange(0, parts@.len() as int) =~= split_on(v@, ','));
    ops
}

/// The purpose code a manifest slot gets.
pub open spec fn manifest_purpose(s: Seq<char>) -> u8 {
    if s == "payload"@ {
        0
    } else if s == "runtime"@ {
        1
    } else if s == "tool"@ {
        2
    } else {
        0
    }
}

/// The lifecycle code a manifest slot gets (unknown names: runtime).
pub open spec fn manifest_lifecycle(s: Seq<char>) -> u8 {
    if s == "init"@ {
        0
    } else if s == "startup"@ {
        1
    } else if s == "runtime"@ {
        2
    } else if s == "shutdown"@ {
        3
    } else if s == "cache"@ {
        4
    } else if s == "temp"@ {
        5
    } else if s == "lazy"@ {
        6
    } else if s == "eager"@ {
        7
    } else if s == "dev"@ {
        8
    } else if s == "config"@ {
        9
    } else if s == "platform"@ {
        10
    } else {
        2
    }
}

fn lifecycle_code(s: &str) -> (r: u8)
    ensures
        r == manifest_lifecycle(s@),
{
    if str_equal(s, "init") {
        0
    } else if str_equal(s, "startup") {
        1
    } else if str_equal(s, "runtime") {
        2
    } else if str_equal(s, "shutdown") {
        3
    } else if str_equal(s, "cache") {
        4
    } else if str_equal(s, "temp") {
        5
    } else if str_equal(s, "lazy") {
        6
    } else if str_equal(s, "eager") {
        7
    } else if str_equal(s, "dev") {
        8
    } else if str_equal(s, "config") {
        9
    } else if str_equal(s, "platform") {
        10
    } else {
        2
    }
}

/// The descriptor of manifest slot `index`, whose stored bytes are
/// `file_size` long and hash to `sha256_checksum` (first eight SHA-256
/// bytes, little-endian).
pub fn create_slot_descriptor(
    index: u64,
    slot: &ManifestSlot,
    file_size: u64,
    sha256_checksum: u64,
) -> (r: SlotDescriptor)
    ensures
        r.id == index,
        r.name_hash == hash_prefix_u64(vstd::utf8::encode_utf8(slot.id@)),
        r.offset == 0,
        r.size == file_size,
        r.original_size == file_size,
        r.checksum == sha256_checksum,
        r.operations == packed_ops(manifest_ops(slot.operations@)),
        r.purpose == manifest_purpose(slot.purpose@),
        r.lifecycle == manifest_lifecycle(slot.lifecycle@),
        r.priority == crate::constants::CACHE_NORMAL,
        descriptor_mode(r) == slot_permissions(
            match slot.permissions {
                Some(p) => Some(p@),
                None => None,
            },
        ),
{
    let ops = manifest_operations(slot.operations.as_str());
    let ps = slot.purpose.as_str();
    let purpose: u8 = if str_equal(ps, "payload") {
        0
    } else if str_equal(ps, "runtime") {
        1
    } else if str_equal(ps, "tool") {
        2
    } else {
        0
    };
    let perms: u16 = match &slot.permissions {
        Some(p) => match parse_octal(p.as_str(), 0xFFFF) {
            Some(v) => v as u16,
            None => DEFAULT_FILE_PERMS,
        },
        None => DEFAULT_FILE_PERMS,
    };
    let mut d = SlotDescriptor::new(index).with_name(slot.id.as_str());
    d.size = file_size;
    d.original_size = file_size;
    d.checksum = sha256_checksum;
    d.operations = crate::operations::pack_operations(ops.as_slice());
    d.purpose = purpose;
    d.lifecycle = lifecycle_code(slot.lifecycle.as_str());
    d.permissions = (perms & 0xFF) as u8;
    d.permissions_high = ((perms >> 8) & 0xFF) as u8;
    assert(((perms & 0xFF) as u8 as u16) | (((perms >> 8) & 0xFF) as u8 as u16) << 8 == perms) by (bit_vector);
    d
}

/// The purpose byte of the packaging path (payload 1, runtime 2, tool 3,
/// config 4, anything else 0).
pub fn get_purpose_byte(purpose: &str) -> (r: u8)
    ensures
        r == (if purpose@ == "payload"@ {
            1u8
        } else if purpose@ == "runtime"@ {
            2u8
        } else if purpose@ == "tool"@ {
            3u8
        } else if purpose@ == "config"@ {
            4u8
        } else {
            0u8
        }),
{
    if str_equal(purpose, "payload") {
        1
    } else if str_equal(purpose, "runtime") {
        2
    } else if str_equal(purpose, "tool") {
        3
    } else if str_equal(purpose, "config") {
        4
    } else {
        0
    }
}

/// The lifecycle byte of the packaging path (as the manifest table, but
/// "temporary" for 5 and no separate "runtime" entry).
pub fn get_lifecycle_byte(lifecycle: &str) -> (r: u8)
    ensures
        r == (if lifecycle@ == "init"@ {
            0u8
        } else if lifecycle@ == "startup"@ {
            1u8
        } else if lifecycle@ == "shutdown"@ {
            3u8
        } else if lifecycle@ == "cache"@ {
            4u8
        } else if lifecycle@ == "temporary"@ {
            5u8
        } else if lifecycle@ == "lazy"@ {
            6u8
        } else if lifecycle@ == "eager"@ {
            7u8
        } else if lifecycle@ == "dev"@ {
            8u8
        } else if lifecycle@ == "config"@ {
            9u8
        } else if lifecycle@ == "platform"@ {
            10u8
        } else {
            2u8
        }),
{
    if str_equal(lifecycle, "init") {
        0
    } else if str_equal(lifecycle, "startup") {
        1
    } else if str_equal(lifecycle, "shutdown") {
        3
    } else if str_equal(lifecycle, "cache") {
        4
    } else if str_equal(lifecycle, "temporary") {
        5
    } else if str_equal(lifecycle, "lazy") {
        6
    } else if str_equal(lifecycle, "eager") {
        7
    } else if str_equal(lifecycle, "dev") {
        8
    } else if str_equal(lifecycle, "config") {
        9
    } else if str_equal(lifecycle, "platform") {
        10
    } else {
        2
    }
}

} // verus!
