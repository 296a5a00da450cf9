//! What a workenv records about its extraction, and the checks made on it.
use crate::checksums::{hex_encode, hex_of};
use crate::index::Index;
use crate::metadata::{CacheValidationInfo, PackageInfo};
use crate::paths::{join, join_path};
use crate::placeholders::{substitute_placeholders, substituted};
use crate::text::{chars_of, is_space, replace_all, replace_str, str_equal, trim_range, trimmed};
use crate::validation::{format_hex8, hex8};
use vstd::prelude::*;

verus! {

/// The index snapshot saved after an extraction (`index.json`).
#[derive(Debug, Clone)]
pub struct IndexMetadata {
    pub format_version: u32,
    pub package_size: u64,
    pub launcher_size: u64,
    pub metadata_offset: u64,
    pub metadata_size: u64,
    pub slot_table_offset: u64,
    pub slot_table_size: u64,
    pub slot_count: u32,
    pub flags: u32,
    pub index_checksum: String,
    pub metadata_checksum: String,
    pub build_timestamp: u64,
    pub page_size: u32,
    pub capabilities: u64,
    pub requirements: u64,
}

impl IndexMetadata {
    /// The snapshot of an index: its fields, the index checksum as eight hex
    /// digits and the metadata checksum in hex.
    pub fn from_index(index: &Index) -> (r: IndexMetadata)
        ensures
            r.format_version == index.format_version,
            r.package_size == index.package_size,
            r.launcher_size == index.launcher_size,
            r.metadata_offset == index.metadata_offset,
            r.metadata_size == index.metadata_size,
            r.slot_table_offset == index.slot_table_offset,
            r.slot_table_size == index.slot_table_size,
            r.slot_count == index.slot_count,
            r.flags == index.flags,
            r.index_checksum@ == hex8(index.index_checksum),
            r.metadata_checksum@ == hex_of(index.metadata_checksum@),
            r.build_timestamp == index.build_timestamp,
            r.page_size == index.page_size,
            r.capabilities == index.capabilities,
            r.requirements == index.requirements,
    {
        IndexMetadata {
            format_version: index.format_version,
            package_size: index.package_size,
            launcher_size: index.launcher_size,
            metadata_offset: index.metadata_offset,
            metadata_size: index.metadata_size,
            slot_table_offset: index.slot_table_offset,
            slot_table_size: index.slot_table_size,
            slot_count: index.slot_count,
            flags: index.flags,
            index_checksum: format_hex8(index.index_checksum),
            metadata_checksum: hex_encode(index.metadata_checksum.as_slice()),
            build_timestamp: index.build_timestamp,
            page_size: index.page_size,
            capabilities: index.capabilities,
            requirements: index.requirements,
        }
    }
}

/// The markers an extraction leaves inside a workenv directory.
#[derive(Debug, Clone)]
pub struct WorkenvValidator {
    pub workenv_path: String,
}

impl WorkenvValidator {
    pub fn new(workenv_path: String) -> (r: WorkenvValidator)
        ensures
            r.workenv_path@ == workenv_path@,
    {
        WorkenvValidator { workenv_path }
    }

    /// The marker of a finished extraction.
    pub fn complete_marker(&self) -> (r: String)
        ensures
            r@ == join(self.workenv_path@, ".extraction.complete"@),
    {
        join_path(self.workenv_path.as_str(), ".extraction.complete")
    }

    /// The marker of an interrupted extraction.
    pub fn incomplete_marker(&self) -> (r: String)
        ensures
            r@ == join(self.workenv_path@, ".extraction.incomplete"@),
    {
        join_path(self.workenv_path.as_str(), ".extraction.incomplete")
    }

    /// The marker of an extraction in progress.
    pub fn lock_marker(&self) -> (r: String)
        ensures
            r@ == join(self.workenv_path@, ".extraction.lock"@),
    {
        join_path(self.workenv_path.as_str(), ".extraction.lock")
    }

    /// A workenv needs a fresh extraction when it is marked incomplete or not
    /// marked complete.
    pub fn needs_refresh(&self, incomplete_exists: bool, complete_exists: bool) -> (r: bool)
        ensures
            r == (incomplete_exists || !complete_exists),
    {
        incomplete_exists || !complete_exists
    }

    /// The file a cache-validation entry names, with `{workenv}` resolved.
    pub fn check_path(&self, check_file: &str) -> (r: String)
        ensures
            r@ == replace_all(check_file@, "{workenv}"@, self.workenv_path@),
    {
        proof {
            reveal_strlit("{workenv}");
        }
        replace_str(check_file, "{workenv}", self.workenv_path.as_str())
    }
}

/// A workenv is valid when its check file could be read and holds the
/// expected content, surrounding white space aside.
pub fn check_workenv_validity(content: Option<&str>, validation: &CacheValidationInfo) -> (r: bool)
    ensures
        r == match content {
            Some(c) => trimmed(c@) == validation.expected_content@,
            None => false,
        },
{
    match content {
        Some(c) => {
            let v = chars_of(c);
            let (b, e) = trim_range(&v, 0, v.len());
            assert(v@.subrange(0, v@.len() as int) =~= v@);
            let t = crate::text::string_of(&v, b, e);
            str_equal(t.as_str(), validation.expected_content.as_str())
        },
        None => false,
    }
}

/// What the first bytes of a region look like.
#[derive(Debug, Clone, Copy, PartialEq, Eq, Structural)]
pub enum ContentKind {
    Gzip,
    Json,
    Tar,
    Zip,
    Unknown,
}

pub open spec fn starts_with(d: Seq<u8>, p: Seq<u8>) -> bool {
    d.len() >= p.len() && d.subrange(0, p.len() as int) == p
}

/// The ustar magic at the start or at offset 257.
pub open spec fn has_tar_magic(d: Seq<u8>) -> bool {
    starts_with(d, seq![0x75u8, 0x73u8, 0x74u8, 0x61u8, 0x72u8]) || crate::extraction::is_tar(d)
}

fn begins(d: &[u8], p: &[u8]) -> (r: bool)
    ensures
        r == starts_with(d@, p@),
{
    if d.len() < p.len() {
        return false;
    }
    let mut i: usize = 0;
    while i < p.len()
        invariant
            i <= p@.len(),
            p@.len() <= d@.len(),
            forall|j: int| 0 <= j < i ==> d@[j] == p@[j],
        decreases p@.len() - i,
    {
        if d[i] != p[i] {
            assert(d@.subrange(0, p@.len() as int)[i as int] != p@[i as int]);
            return false;
        }
        i = i + 1;
    }
    assert(d@.subrange(0, p@.len() as int) =~= p@);
    true
}

/// Classify the start of a metadata region: gzip, JSON, tar, or unknown.
pub fn analyze_metadata_format(metadata_raw: &[u8]) -> (r: ContentKind)
    ensures
        r == if starts_with(metadata_raw@, seq![0x1Fu8, 0x8Bu8]) {
            ContentKind::Gzip
        } else if starts_with(metadata_raw@, seq![0x7Bu8]) {
            ContentKind::Json
        } else if has_tar_magic(metadata_raw@) {
            ContentKind::Tar
        } else {
            ContentKind::Unknown
        },
{
    let gz: [u8; 2] = [0x1F, 0x8B];
    let brace: [u8; 1] = [0x7B];
    let ustar: [u8; 5] = [0x75, 0x73, 0x74, 0x61, 0x72];
    assert(gz@ =~= seq![0x1Fu8, 0x8Bu8]);
    assert(brace@ =~= seq![0x7Bu8]);
    assert(ustar@ =~= seq![0x75u8, 0x73u8, 0x74u8, 0x61u8, 0x72u8]);
    if begins(metadata_raw, gz.as_slice()) {
        ContentKind::Gzip
    } else if begins(metadata_raw, brace.as_slice()) {
        ContentKind::Json
    } else if begins(metadata_raw, ustar.as_slice()) || crate::extraction::is_tarball(metadata_raw) {
        ContentKind::Tar
    } else {
        ContentKind::Unknown
    }
}

/// Classify the start of a slot: gzip, tar, zip, JSON, or unknown.
pub fn identify_slot_content(preview: &[u8]) -> (r: ContentKind)
    ensures
        r == if starts_with(preview@, seq![0x1Fu8, 0x8Bu8]) {
            ContentKind::Gzip
        } else if has_tar_magic(preview@) {
            ContentKind::Tar
        } else if starts_with(preview@, seq![0x50u8, 0x4Bu8]) {
            ContentKind::Zip
        } else if starts_with(preview@, seq![0x7Bu8]) || starts_with(preview@, seq![0x5Bu8]) {
            ContentKind::Json
        } else {
            ContentKind::Unknown
        },
{
    let gz: [u8; 2] = [0x1F, 0x8B];
    let pk: [u8; 2] = [0x50, 0x4B];
    let brace: [u8; 1] = [0x7B];
    let bracket: [u8; 1] = [0x5B];
    let ustar: [u8; 5] = [0x75, 0x73, 0x74, 0x61, 0x72];
    assert(gz@ =~= seq![0x1Fu8, 0x8Bu8]);
    assert(pk@ =~= seq![0x50u8, 0x4Bu8]);
    assert(brace@ =~= seq![0x7Bu8]);
    assert(bracket@ =~= seq![0x5Bu8]);
    assert(ustar@ =~= seq![0x75u8, 0x73u8, 0x74u8, 0x61u8, 0x72u8]);
    if begins(preview, gz.as_slice()) {
        ContentKind::Gzip
    } else if begins(preview, ustar.as_slice()) || crate::extraction::is_tarball(preview) {
        ContentKind::Tar
    } else if begins(preview, pk.as_slice()) {
        ContentKind::Zip
    } else if begins(preview, brace.as_slice()) || begins(preview, bracket.as_slice()) {
        ContentKind::Json
    } else {
        ContentKind::Unknown
    }
}

/// The words of `s`: maximal runs of characters that are not white space.
pub open spec fn words(s: Seq<char>) -> Seq<Seq<char>>
    decreases s.len(),
{
    if s.len() == 0 {
        Seq::empty()
    } else {
        let w = words(s.drop_last());
        if is_space(s.last()) {
            w
        } else if s.len() >= 2 && !is_space(s[s.len() - 2]) {
            w.update(w.len() - 1, w.last().push(s.last()))
        } else {
            w.push(seq![s.last()])
        }
    }
}

proof fn lemma_words_nonempty_tail(s: Seq<char>)
    requires
        s.len() > 0,
        !is_space(s.last()),
    ensures
        words(s).len() > 0,
    decreases s.len(),
{
    if s.len() >= 2 && !is_space(s[s.len() - 2]) {
        assert(s.drop_last().last() == s[s.len() - 2]);
        lemma_words_nonempty_tail(s.drop_last());
    }
}

/// The argument vector of a setup command: placeholders substituted, then
/// split on white space. An empty vector means there is nothing to run.
pub fn command_argv(command: &str, workenv_dir: &str, package: &PackageInfo) -> (r: Vec<String>)
    ensures
        r@.len() == words(substituted(command@, workenv_dir@, package.name@, package.version@)).len(),
        forall|i: int| 0 <= i < r@.len() ==> #[trigger] r@[i]@ == words(substituted(command@, workenv_dir@, package.name@, package.version@))[i],
{
    let text = substitute_placeholders(command, workenv_dir, package);
    let v = chars_of(text.as_str());
    let mut out: Vec<String> = Vec::new();
    let mut cur = String::new();
    let mut i: usize = 0;
    while i < v.len()
        invariant
            i <= v@.len(),
            ({
                let w = words(v@.subrange(0, i as int));
                let open = i > 0 && !is_space(v@[i - 1]);
                &&& open ==> out@.len() + 1 == w.len() && cur@ == w.last()
                &&& !open ==> out@.len() == w.len() && cur@.len() == 0
                &&& forall|k: int| 0 <= k < out@.len() ==> #[trigger] out@[k]@ == w[k]
            }),
        decreases v@.len() - i,
    {
        let c = v[i];
        let ghost pre = v@.subrange(0, i as int);
        let ghost now = v@.subrange(0, i + 1);
        assert(now.drop_last() =~= pre);
        if crate::text::is_space_char(c) {
            if i > 0 && !crate::text::is_space_char(v[i - 1]) {
                let done = cur;
                out.push(done);
                cur = String::new();
            }
        } else {
            if i > 0 && !crate::text::is_space_char(v[i - 1]) {
                assert(now[now.len() - 2] == v@[i - 1]);
            }
            crate::text::push_char(&mut cur, c);
            proof {
                if i > 0 && !is_space(v@[i - 1]) {
                    lemma_words_nonempty_tail(pre);
                }
            }
        }
        i = i + 1;
    }
    assert(v@.subrange(0, v@.len() as int) =~= v@);
    if v.len() > 0 && !crate::text::is_space_char(v[v.len() - 1]) {
        out.push(cur);
    }
    out
}

} // verus!
