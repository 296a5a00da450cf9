//! PE overlay compatibility: recognising Windows launchers and growing a short
//! DOS stub to 0xF0 bytes while keeping every absolute file offset right.
use crate::codec::{put_u32, read_u16, read_u32, u16_at, u32_at, write_u32};
use crate::error::FlavorError;
use crate::text::occurs_in;
use vstd::arithmetic::div_mod::lemma_fundamental_div_mod_converse;
use vstd::bytes::*;
use vstd::prelude::*;

verus! {

/// The DOS stub size that expansion grows a stub to.
pub const TARGET_DOS_STUB_SIZE: usize = 0xF0;

/// Starts with `MZ`.
pub open spec fn is_pe(d: Seq<u8>) -> bool {
    d.len() >= 2 && d[0] == 0x4D && d[1] == 0x5A
}

/// The PE header offset (`e_lfanew`, at 0x3C), when it points at a `PE\0\0`
/// signature inside the data.
pub open spec fn pe_header_offset(d: Seq<u8>) -> Option<int> {
    if d.len() < 0x40 {
        None
    } else {
        let off = u32_at(d, 0x3C) as int;
        if d.len() < off + 4 {
            None
        } else if d.subrange(off, off + 4) == seq![0x50u8, 0x45u8, 0u8, 0u8] {
            Some(off)
        } else {
            None
        }
    }
}

/// `v` plus the padding (modulo 2^32) where `v` reaches the threshold.
pub open spec fn bump(v: u32, pad: u32, threshold: u32) -> u32 {
    if v >= threshold {
        if v + pad <= u32::MAX {
            (v + pad) as u32
        } else {
            (v + pad - 0x1_0000_0000) as u32
        }
    } else {
        v
    }
}

/// Whether byte `j` lies in one of `count` four-byte fields placed every
/// `stride` bytes from `base`.
pub open spec fn in_field(j: int, base: int, stride: int, count: int) -> bool {
    base <= j && (j - base) % stride < 4 && (j - base) / stride < count
}

/// `d` with each of `count` four-byte fields (every `stride` bytes from
/// `base`) bumped by `pad` where it reaches `threshold`.
pub open spec fn bumped_fields(
    d: Seq<u8>,
    base: int,
    stride: int,
    count: int,
    pad: u32,
    threshold: u32,
) -> Seq<u8> {
    Seq::new(
        d.len(),
        |j: int|
            if in_field(j, base, stride, count) {
                let at = base + ((j - base) / stride) * stride;
                spec_u32_to_le_bytes(bump(u32_at(d, at), pad, threshold))[j - at]
            } else {
                d[j]
            },
    )
}

proof fn lemma_field_position(j: int, base: int, stride: int, k: int)
    requires
        stride >= 4,
        k >= 0,
        base + k * stride <= j < base + k * stride + 4,
    ensures
        (j - base) / stride == k,
        (j - base) % stride == j - base - k * stride,
{
    lemma_fundamental_div_mod_converse(j - base, stride, k, j - base - k * stride);
}

proof fn lemma_field_base(base: int, stride: int, k: int)
    requires
        stride >= 4,
        k >= 0,
    ensures
        base + k * stride + 4 <= base + (k + 1) * stride,
        base + k * stride >= base,
{
    assert(k * stride >= 0) by (nonlinear_arith)
        requires
            k >= 0,
            stride >= 4,
    ;
    assert((k + 1) * stride == k * stride + stride) by (nonlinear_arith);
}

/// Bump `count` four-byte fields placed every `stride` bytes from `base`.
fn bump_fields(data: &mut Vec<u8>, base: usize, stride: usize, count: usize, pad: u32, threshold: u32)
    requires
        stride >= 4,
        count > 0 ==> base + (count - 1) * stride + 4 <= old(data)@.len(),
    ensures
        final(data)@ == bumped_fields(old(data)@, base as int, stride as int, count as int, pad, threshold),
{
    let ghost d0 = old(data)@;
    let len = data.len();
    let mut i: usize = 0;
    assert(data@ =~= bumped_fields(d0, base as int, stride as int, 0, pad, threshold));
    while i < count
        invariant
            stride >= 4,
            i <= count,
            count > 0 ==> base + (count - 1) * stride + 4 <= d0.len(),
            len == d0.len(),
            data@ == bumped_fields(d0, base as int, stride as int, i as int, pad, threshold),
        decreases count - i,
    {
        proof {
            lemma_field_base(base as int, stride as int, i as int);
            assert(i * stride <= (count - 1) * stride) by (nonlinear_arith)
                requires
                    i <= count - 1,
            ;
        }
        let at = base + i * stride;
        let ghost cur = data@;
        assert forall|j: int| at <= j < at + 4 implies #[trigger] cur[j] == d0[j] by {
            lemma_field_position(j, base as int, stride as int, i as int);
        }
        assert(cur.subrange(at as int, at + 4) =~= d0.subrange(at as int, at + 4));
        let v = read_u32(data.as_slice(), at);
        let nv = if v >= threshold {
            let sum: u64 = v as u64 + pad as u64;
            if sum <= 0xFFFF_FFFF {
                sum as u32
            } else {
                (sum - 0x1_0000_0000) as u32
            }
        } else {
            v
        };
        assert(nv == bump(v, pad, threshold));
        write_u32(data, at, nv);
        proof {
            lemma_auto_spec_u32_to_from_le_bytes();
            let next = bumped_fields(d0, base as int, stride as int, i + 1, pad, threshold);
            assert forall|j: int| 0 <= j < data@.len() implies #[trigger] data@[j] == next[j] by {
                if at <= j < at + 4 {
                    lemma_field_position(j, base as int, stride as int, i as int);
                } else if in_field(j, base as int, stride as int, i + 1) {
                    let q = (j - base) / (stride as int);
                    if q == i {
                        let r = (j - base) % (stride as int);
                        assert(j - base == q * stride + r) by (nonlinear_arith)
                            requires
                                stride > 0,
                                q == (j - base) / (stride as int),
                                r == (j - base) % (stride as int),
                        ;
                    }
                }
            }
            assert(data@ =~= next);
        }
        i = i + 1;
    }
}

/// Whether the data starts with the `MZ` signature.
pub fn is_pe_executable(data: &[u8]) -> (r: bool)
    ensures
        r == is_pe(data@),
{
    data.len() >= 2 && data[0] == 0x4D && data[1] == 0x5A
}

/// The PE header offset, when `e_lfanew` points at a `PE\0\0` signature.
pub fn get_pe_header_offset(data: &[u8]) -> (r: Option<usize>)
    ensures
        r is Some <==> pe_header_offset(data@) is Some,
        r is Some ==> r->Some_0 as int == pe_header_offset(data@)->Some_0,
{
    if data.len() < 0x40 {
        return None;
    }
    let raw = read_u32(data, 0x3C);
    if (data.len() as u64) < raw as u64 + 4 {
        return None;
    }
    let pe_offset = raw as usize;
    let sig = crate::codec::bytes_at_eq4(data, pe_offset, 0x50, 0x45, 0, 0);
    if !sig {
        return None;
    }
    Some(pe_offset)
}

/// A PE whose header sits at 0x80: the minimal stub of Go-built launchers.
pub fn needs_dos_stub_expansion(data: &[u8]) -> (r: bool)
    ensures
        r == (is_pe(data@) && pe_header_offset(data@) == Some(0x80int)),
{
    if !is_pe_executable(data) {
        return false;
    }
    match get_pe_header_offset(data) {
        Some(off) => off == 0x80,
        None => false,
    }
}

/// The language a launcher was built with.
#[derive(Debug, Clone, Copy, PartialEq, Eq, Structural)]
pub enum LauncherKind {
    Go,
    Rust,
    Unknown,
}

/// Markers that the Go toolchain leaves in its binaries.
pub open spec fn go_markers(d: Seq<u8>) -> bool {
    occurs_in(d, seq![0x67u8, 0x6Fu8, 0x2Eu8, 0x62u8, 0x75u8, 0x69u8, 0x6Cu8, 0x64u8, 0x69u8, 0x64u8]) || occurs_in(d, seq![0x72u8, 0x75u8, 0x6Eu8, 0x74u8, 0x69u8, 0x6Du8, 0x65u8, 0x2Eu8, 0x6Du8, 0x61u8, 0x69u8, 0x6Eu8])
}

/// Markers that the Rust toolchain leaves in its binaries.
pub open spec fn rust_markers(d: Seq<u8>) -> bool {
    occurs_in(d, seq![0x72u8, 0x75u8, 0x73u8, 0x74u8, 0x5Fu8, 0x70u8, 0x61u8, 0x6Eu8, 0x69u8, 0x63u8]) || occurs_in(d, seq![0x5Fu8, 0x5Au8, 0x4Eu8])
}

/// The kind of a PE launcher: by the toolchain markers it carries, else by
/// its DOS stub (0x80 is Go's minimal stub, 0xE8 or more is Rust's).
pub open spec fn launcher_kind(d: Seq<u8>) -> LauncherKind {
    if !is_pe(d) || pe_header_offset(d) is None {
        LauncherKind::Unknown
    } else if go_markers(d) {
        LauncherKind::Go
    } else if rust_markers(d) {
        LauncherKind::Rust
    } else if pe_header_offset(d)->Some_0 == 0x80 {
        LauncherKind::Go
    } else if pe_header_offset(d)->Some_0 >= 0xE8 {
        LauncherKind::Rust
    } else {
        LauncherKind::Unknown
    }
}

/// Whether `pat` occurs in `d`.
fn contains_bytes(d: &[u8], pat: &[u8]) -> (r: bool)
    requires
        pat@.len() > 0,
    ensures
        r == occurs_in(d@, pat@),
{
    let n = d.len();
    let mut i: usize = 0;
    while i < n
        invariant
            n == d@.len(),
            i <= n,
            forall|k: int| 0 <= k < i && k + pat@.len() <= n ==> #[trigger] d@.subrange(k, k + pat@.len()) != pat@,
        decreases n - i,
    {
        if crate::launch::bytes_match_at(d, i, pat) {
            return true;
        }
        i = i + 1;
    }
    false
}

/// Tell a launcher's kind (see `launcher_kind`).
pub fn detect_launcher_kind(data: &[u8]) -> (r: LauncherKind)
    ensures
        r == launcher_kind(data@),
{
    if !is_pe_executable(data) {
        return LauncherKind::Unknown;
    }
    let off = match get_pe_header_offset(data) {
        Some(o) => o,
        None => {
            return LauncherKind::Unknown;
        },
    };
    let go1: [u8; 10] = [0x67, 0x6F, 0x2E, 0x62, 0x75, 0x69, 0x6C, 0x64, 0x69, 0x64];
    let go2: [u8; 12] = [0x72, 0x75, 0x6E, 0x74, 0x69, 0x6D, 0x65, 0x2E, 0x6D, 0x61, 0x69, 0x6E];
    let rust1: [u8; 10] = [0x72, 0x75, 0x73, 0x74, 0x5F, 0x70, 0x61, 0x6E, 0x69, 0x63];
    let rust2: [u8; 3] = [0x5F, 0x5A, 0x4E];
    assert(go1@ =~= seq![0x67u8, 0x6Fu8, 0x2Eu8, 0x62u8, 0x75u8, 0x69u8, 0x6Cu8, 0x64u8, 0x69u8, 0x64u8]);
    assert(go2@ =~= seq![0x72u8, 0x75u8, 0x6Eu8, 0x74u8, 0x69u8, 0x6Du8, 0x65u8, 0x2Eu8, 0x6Du8, 0x61u8, 0x69u8, 0x6Eu8]);
    assert(rust1@ =~= seq![0x72u8, 0x75u8, 0x73u8, 0x74u8, 0x5Fu8, 0x70u8, 0x61u8, 0x6Eu8, 0x69u8, 0x63u8]);
    assert(rust2@ =~= seq![0x5Fu8, 0x5Au8, 0x4Eu8]);
    if contains_bytes(data, go1.as_slice()) || contains_bytes(data, go2.as_slice()) {
        LauncherKind::Go
    } else if contains_bytes(data, rust1.as_slice()) || contains_bytes(data, rust2.as_slice()) {
        LauncherKind::Rust
    } else if off == 0x80 {
        LauncherKind::Go
    } else if off >= 0xE8 {
        LauncherKind::Rust
    } else {
        LauncherKind::Unknown
    }
}

/// The name of a launcher's kind.
pub open spec fn launcher_type_of(d: Seq<u8>) -> Seq<char> {
    match launcher_kind(d) {
        LauncherKind::Go => "go"@,
        LauncherKind::Rust => "rust"@,
        LauncherKind::Unknown => "unknown"@,
    }
}

/// "go", "rust" or "unknown" (see `launcher_kind`).
pub fn get_launcher_type(launcher_data: &[u8]) -> (r: &'static str)
    ensures
        r@ == launcher_type_of(launcher_data@),
{
    match detect_launcher_kind(launcher_data) {
        LauncherKind::Go => "go",
        LauncherKind::Rust => "rust",
        LauncherKind::Unknown => "unknown",
    }
}

} // verus!

verus! {

/// Offset of the COFF file header: four bytes after the PE signature.
pub open spec fn coff_of(p: Seq<u8>) -> int {
    u32_at(p, 0x3C) as int + 4
}

/// Number of section headers.
pub open spec fn section_count(p: Seq<u8>) -> int {
    u16_at(p, coff_of(p) + 2) as int
}

/// Offset of the section table: after the COFF header and the optional header.
pub open spec fn section_table_of(p: Seq<u8>) -> int {
    coff_of(p) + 20 + u16_at(p, coff_of(p) + 16) as int
}

/// The COFF header can be read and every section header's first 24 bytes
/// lie inside the data.
pub open spec fn sections_in_bounds(p: Seq<u8>) -> bool {
    &&& p.len() >= 0x40
    &&& coff_of(p) + 18 <= p.len()
    &&& (section_count(p) == 0 || section_table_of(p) + 40 * (section_count(p) - 1) + 24
        <= p.len())
}

/// Step 3: every section's `PointerToRawData` that is non-zero grows by `pad`.
pub open spec fn sections_updated(p: Seq<u8>, pad: u32) -> Seq<u8> {
    bumped_fields(p, section_table_of(p) + 20, 40, section_count(p), pad, 1)
}

/// Offset of `SizeOfHeaders` in the optional header.
pub open spec fn size_of_headers_at(p: Seq<u8>) -> int {
    coff_of(p) + 20 + 60
}

/// Step 4: `SizeOfHeaders` grows by `pad`.
pub open spec fn size_of_headers_updated(p: Seq<u8>, pad: u32) -> Seq<u8> {
    bumped_fields(p, size_of_headers_at(p), 4, 1, pad, 0)
}

/// Offset of the data-directory array (PE32+ when the optional-header magic is 0x20B).
pub open spec fn data_dir_of(p: Seq<u8>) -> int {
    if u16_at(p, coff_of(p) + 20) == 0x20B {
        coff_of(p) + 20 + 112
    } else {
        coff_of(p) + 20 + 96
    }
}

/// Steps 5 and 6: the Certificate Table offset grows by `pad` when it is at
/// least 0x80 (if its entry lies inside the data); the checksum becomes zero.
pub open spec fn data_directories_updated(p: Seq<u8>, pad: u32) -> Seq<u8> {
    let cert = data_dir_of(p) + 32;
    let q = if cert + 8 <= p.len() {
        bumped_fields(p, cert, 8, 1, pad, 0x80)
    } else {
        p
    };
    put_u32(q, coff_of(p) + 20 + 64, 0)
}

/// The file offset of `rva` through the first section (from `i` on) whose
/// virtual range holds it.
pub open spec fn rva_lookup(p: Seq<u8>, rva: u32, i: int) -> Option<int>
    decreases section_count(p) - i,
{
    if i >= section_count(p) || i < 0 {
        None
    } else {
        let sh = section_table_of(p) + 40 * i;
        let va = u32_at(p, sh + 12) as int;
        let vs = u32_at(p, sh + 8) as int;
        if va <= rva && rva < va + vs {
            Some(u32_at(p, sh + 20) as int + (rva - va))
        } else {
            rva_lookup(p, rva, i + 1)
        }
    }
}

/// How many of `n` 28-byte debug entries from `start` have their
/// `PointerToRawData` (byte 24) inside the data.
pub open spec fn debug_entries_in_bounds(start: int, n: int, len: int) -> int {
    if start + 28 > len {
        0
    } else if n <= (len - start - 28) / 28 + 1 {
        n
    } else {
        (len - start - 28) / 28 + 1
    }
}

/// Step 7: each Debug Directory entry's `PointerToRawData` that is at least
/// 0x80 grows by `pad`.
pub open spec fn debug_directory_updated(p: Seq<u8>, pad: u32) -> Seq<u8> {
    let entry = data_dir_of(p) + 48;
    if entry + 8 > p.len() {
        p
    } else {
        let rva = u32_at(p, entry);
        let size = u32_at(p, entry + 4);
        if rva == 0 || size == 0 {
            p
        } else {
            match rva_lookup(p, rva, 0) {
                None => p,
                Some(fo) => bumped_fields(
                    p,
                    fo + 24,
                    28,
                    debug_entries_in_bounds(fo, size as int / 28, p.len() as int),
                    pad,
                    0x80,
                ),
            }
        }
    }
}

/// Steps 1 and 2: zero padding inserted before the PE header at `off`, and
/// `e_lfanew` set to 0xF0.
pub open spec fn padded_image(d: Seq<u8>, off: int) -> Seq<u8> {
    put_u32(
        d.subrange(0, off) + Seq::new((0xF0 - off) as nat, |i: int| 0u8) + d.subrange(
            off,
            d.len() as int,
        ),
        0x3C,
        0xF0,
    )
}

/// What expansion needs of the padded image besides the section table.
pub open spec fn headers_in_bounds(p: Seq<u8>) -> bool {
    coff_of(p) + 20 + 68 <= p.len()
}

/// The expanded image of a PE whose header sits at `off` < 0xF0.
pub open spec fn expanded_image(d: Seq<u8>, off: int) -> Seq<u8> {
    let pad = (0xF0 - off) as u32;
    let p1 = padded_image(d, off);
    let p2 = sections_updated(p1, pad);
    let p3 = size_of_headers_updated(p2, pad);
    let p4 = data_directories_updated(p3, pad);
    debug_directory_updated(p4, pad)
}

/// Whether a PE with its header at `off` < 0xF0 can be expanded.
pub open spec fn expandable(d: Seq<u8>, off: int) -> bool {
    let p1 = padded_image(d, off);
    sections_in_bounds(p1) && headers_in_bounds(p1)
}

/// Fields that the steps after it read keep their place and value when a
/// set of bumped fields leaves them alone.
proof fn lemma_bumped_len(d: Seq<u8>, base: int, stride: int, count: int, pad: u32, threshold: u32)
    ensures
        bumped_fields(d, base, stride, count, pad, threshold).len() == d.len(),
{
}

fn update_section_offsets(data: &mut Vec<u8>, padding_size: u32) -> (r: Result<(), FlavorError>)
    ensures
        r is Ok <==> sections_in_bounds(old(data)@),
        r is Ok ==> final(data)@ == sections_updated(old(data)@, padding_size),
        r is Err ==> final(data)@ == old(data)@,
{
    let len = data.len();
    if len < 0x40 {
        return Err(FlavorError::InvalidPe("section table outside the image".to_string()));
    }
    let coff: u64 = read_u32(data.as_slice(), 0x3C) as u64 + 4;
    if coff + 18 > len as u64 {
        return Err(FlavorError::InvalidPe("section table outside the image".to_string()));
    }
    let num_sections = read_u16(data.as_slice(), (coff + 2) as usize) as u64;
    let opt_hdr_size = read_u16(data.as_slice(), (coff + 16) as usize) as u64;
    let table: u64 = coff + 20 + opt_hdr_size;
    if num_sections > 0 && table + 40 * (num_sections - 1) + 24 > len as u64 {
        return Err(FlavorError::InvalidPe("section table outside the image".to_string()));
    }
    bump_fields(data, (table + 20) as usize, 40, num_sections as usize, padding_size, 1);
    Ok(())
}

fn update_size_of_headers(data: &mut Vec<u8>, padding_size: u32) -> (r: Result<(), FlavorError>)
    requires
        old(data)@.len() >= 0x40,
    ensures
        r is Ok <==> size_of_headers_at(old(data)@) + 4 <= old(data)@.len(),
        r is Ok ==> final(data)@ == size_of_headers_updated(old(data)@, padding_size),
        r is Err ==> final(data)@ == old(data)@,
{
    let len = data.len();
    let soh: u64 = read_u32(data.as_slice(), 0x3C) as u64 + 4 + 20 + 60;
    if soh + 4 > len as u64 {
        return Err(FlavorError::InvalidPe("SizeOfHeaders outside the image".to_string()));
    }
    bump_fields(data, soh as usize, 4, 1, padding_size, 0);
    Ok(())
}

fn update_data_directories(data: &mut Vec<u8>, padding_size: u32) -> (r: Result<(), FlavorError>)
    requires
        old(data)@.len() >= 0x40,
        coff_of(old(data)@) + 20 + 64 <= old(data)@.len(),
    ensures
        r is Ok <==> headers_in_bounds(old(data)@),
        r is Ok ==> final(data)@ == data_directories_updated(old(data)@, padding_size),
        r is Err ==> final(data)@ == old(data)@,
{
    let ghost d0 = data@;
    let len = data.len();
    let coff: u64 = read_u32(data.as_slice(), 0x3C) as u64 + 4;
    if coff + 20 + 68 > len as u64 {
        return Err(FlavorError::InvalidPe("optional header outside the image".to_string()));
    }
    let magic = read_u16(data.as_slice(), (coff + 20) as usize);
    let data_dir: u64 = if magic == 0x20B { coff + 20 + 112 } else { coff + 20 + 96 };
    let cert: u64 = data_dir + 32;
    if cert + 8 <= len as u64 {
        bump_fields(data, cert as usize, 8, 1, padding_size, 0x80);
    }
    proof {
        lemma_bumped_len(d0, cert as int, 8, 1, padding_size, 0x80);
        if cert + 8 <= len {
            assert forall|j: int| 0 <= j < 0x40 implies !in_field(j, cert as int, 8, 1) by {}
            assert(data@.subrange(0x3C, 0x40) =~= d0.subrange(0x3C, 0x40));
        }
    }
    write_u32(data, (coff + 20 + 64) as usize, 0);
    Ok(())
}

/// The file offset of `rva` through the section whose virtual range holds it.
fn rva_to_file_offset(data: &[u8], rva: u32) -> (r: Option<u64>)
    requires
        sections_in_bounds(data@),
    ensures
        r is Some <==> rva_lookup(data@, rva, 0) is Some,
        r is Some ==> r->Some_0 as int == rva_lookup(data@, rva, 0)->Some_0,
{
    let len = data.len();
    let coff: u64 = read_u32(data, 0x3C) as u64 + 4;
    assert(coff + 18 <= len);
    let num_sections = read_u16(data, (coff + 2) as usize) as u64;
    let opt_hdr_size = read_u16(data, (coff + 16) as usize) as u64;
    let table: u64 = coff + 20 + opt_hdr_size;
    let mut i: u64 = 0;
    while i < num_sections
        invariant
            sections_in_bounds(data@),
            len == data@.len(),
            coff == coff_of(data@),
            num_sections == section_count(data@),
            table == section_table_of(data@),
            i <= num_sections,
            rva_lookup(data@, rva, 0) == rva_lookup(data@, rva, i as int),
        decreases num_sections - i,
    {
        let sh = (table + 40 * i) as usize;
        let virtual_size = read_u32(data, sh + 8) as u64;
        let virtual_addr = read_u32(data, sh + 12) as u64;
        let pointer_to_raw_data = read_u32(data, sh + 20) as u64;
        if virtual_addr <= rva as u64 && (rva as u64) < virtual_addr + virtual_size {
            return Some(pointer_to_raw_data + (rva as u64 - virtual_addr));
        }
        i = i + 1;
    }
    None
}

fn update_debug_directory(data: &mut Vec<u8>, padding_size: u32)
    requires
        sections_in_bounds(old(data)@),
        headers_in_bounds(old(data)@),
    ensures
        final(data)@ == debug_directory_updated(old(data)@, padding_size),
{
    let len = data.len();
    let coff: u64 = read_u32(data.as_slice(), 0x3C) as u64 + 4;
    let magic = read_u16(data.as_slice(), (coff + 20) as usize);
    let data_dir: u64 = if magic == 0x20B { coff + 20 + 112 } else { coff + 20 + 96 };
    let entry: u64 = data_dir + 48;
    if entry + 8 > len as u64 {
        return;
    }
    let debug_dir_rva = read_u32(data.as_slice(), entry as usize);
    let debug_dir_size = read_u32(data.as_slice(), (entry + 4) as usize);
    if debug_dir_rva == 0 || debug_dir_size == 0 {
        return;
    }
    let file_offset = match rva_to_file_offset(data.as_slice(), debug_dir_rva) {
        Some(o) => o,
        None => {
            return;
        },
    };
    let n = (debug_dir_size / 28) as u64;
    let count: u64 = if len < 28 || file_offset > (len - 28) as u64 {
        0
    } else if n <= (len as u64 - file_offset - 28) / 28 + 1 {
        n
    } else {
        (len as u64 - file_offset - 28) / 28 + 1
    };
    if count > 0 {
        assert(file_offset + 24 + (count - 1) * 28 + 4 <= len) by (nonlinear_arith)
            requires
                count <= (len - file_offset - 28) / 28 + 1,
                file_offset + 28 <= len,
                count > 0,
        ;
        bump_fields(data, (file_offset + 24) as usize, 28, count as usize, padding_size, 0x80);
    } else {
        assert(data@ =~= bumped_fields(data@, file_offset + 24, 28, 0, padding_size, 0x80));
    }
}

} // verus!

verus! {

/// Same length, and the same bytes below `n`.
pub open spec fn agree_below(a: Seq<u8>, b: Seq<u8>, n: int) -> bool {
    a.len() == b.len() && forall|j: int| 0 <= j < n && j < a.len() ==> #[trigger] a[j] == b[j]
}

/// The header fields that locate the section table are below `coff + 20`, so
/// images that agree there locate it alike.
proof fn lemma_agree_headers(a: Seq<u8>, b: Seq<u8>)
    requires
        a.len() >= 0x40,
        coff_of(a) + 18 <= a.len(),
        agree_below(a, b, coff_of(a) + 20),
        0x40 <= coff_of(a) + 20,
    ensures
        coff_of(b) == coff_of(a),
        section_count(b) == section_count(a),
        section_table_of(b) == section_table_of(a),
        sections_in_bounds(a) == sections_in_bounds(b),
        headers_in_bounds(a) == headers_in_bounds(b),
        size_of_headers_at(a) == size_of_headers_at(b),
{
    assert(a.subrange(0x3C, 0x40) =~= b.subrange(0x3C, 0x40));
    let c = coff_of(a);
    assert(a.subrange(c + 2, c + 4) =~= b.subrange(c + 2, c + 4));
    assert(a.subrange(c + 16, c + 18) =~= b.subrange(c + 16, c + 18));
}

proof fn lemma_bumped_agree(d: Seq<u8>, base: int, stride: int, count: int, pad: u32, threshold: u32, n: int)
    requires
        n <= base,
    ensures
        agree_below(d, bumped_fields(d, base, stride, count, pad, threshold), n),
{
}

proof fn lemma_put_agree(d: Seq<u8>, at: int, x: u32, n: int)
    requires
        n <= at,
        0 <= at,
        at + 4 <= d.len(),
    ensures
        agree_below(d, put_u32(d, at, x), n),
{
    lemma_auto_spec_u32_to_from_le_bytes();
}

proof fn lemma_agree_trans(a: Seq<u8>, b: Seq<u8>, c: Seq<u8>, n: int)
    requires
        agree_below(a, b, n),
        agree_below(b, c, n),
    ensures
        agree_below(a, c, n),
{
}

/// Grow the DOS stub of a PE launcher to 0xF0 bytes (see `expanded_image`).
/// A PE whose header already sits at 0xF0 or later comes back unchanged.
pub fn expand_dos_stub(data: Vec<u8>) -> (r: Result<Vec<u8>, FlavorError>)
    ensures
        !is_pe(data@) ==> r is Err,
        is_pe(data@) && pe_header_offset(data@) is None ==> r is Err,
        is_pe(data@) && pe_header_offset(data@) is Some && pe_header_offset(data@)->Some_0 >= 0xF0
            ==> r is Ok && r->Ok_0@ == data@,
        is_pe(data@) && pe_header_offset(data@) is Some && pe_header_offset(data@)->Some_0 < 0xF0
            ==> ({
            let off = pe_header_offset(data@)->Some_0;
            &&& r is Ok <==> (expandable(data@, off) && pe_header_offset(expanded_image(data@, off))
                == Some(0xF0int))
            &&& r is Ok ==> r->Ok_0@ == expanded_image(data@, off)
        }),
        r is Err ==> r->Err_0 is InvalidPe,
{
    if !is_pe_executable(data.as_slice()) {
        return Err(FlavorError::InvalidPe("not a Windows PE executable".to_string()));
    }
    let current = match get_pe_header_offset(data.as_slice()) {
        Some(o) => o,
        None => {
            return Err(FlavorError::InvalidPe("invalid PE header offset".to_string()));
        },
    };
    if current >= TARGET_DOS_STUB_SIZE {
        return Ok(data);
    }
    let ghost d = data@;
    let ghost off = current as int;
    let padding_size = TARGET_DOS_STUB_SIZE - current;
    let mut new_data: Vec<u8> = Vec::new();
    crate::codec::append_bytes(&mut new_data, vstd::slice::slice_subrange(data.as_slice(), 0, current));
    let mut k: usize = 0;
    while k < padding_size
        invariant
            k <= padding_size,
            padding_size == 0xF0 - current,
            current < 0xF0,
            current <= d.len(),
            new_data@ == d.subrange(0, off) + Seq::new(k as nat, |i: int| 0u8),
        decreases padding_size - k,
    {
        new_data.push(0);
        k = k + 1;
        assert(new_data@ =~= d.subrange(0, off) + Seq::new(k as nat, |i: int| 0u8));
    }
    crate::codec::append_bytes(&mut new_data, vstd::slice::slice_subrange(data.as_slice(), current, data.len()));
    write_u32(&mut new_data, 0x3C, 0xF0);
    let pad = padding_size as u32;
    let ghost p1 = new_data@;
    assert(p1 == padded_image(d, off));
    assert(coff_of(p1) == 0xF4);
    let sections = update_section_offsets(&mut new_data, pad);
    if sections.is_err() {
        return Err(FlavorError::InvalidPe("section table outside the image".to_string()));
    }
    let ghost p2 = new_data@;
    proof {
        lemma_bumped_agree(p1, section_table_of(p1) + 20, 40, section_count(p1), pad, 1, coff_of(p1) + 20);
        lemma_agree_headers(p1, p2);
    }
    let headers = update_size_of_headers(&mut new_data, pad);
    if headers.is_err() {
        return Err(FlavorError::InvalidPe("SizeOfHeaders outside the image".to_string()));
    }
    let ghost p3 = new_data@;
    proof {
        lemma_bumped_agree(p2, size_of_headers_at(p2), 4, 1, pad, 0, coff_of(p1) + 20);
        lemma_agree_trans(p1, p2, p3, coff_of(p1) + 20);
        lemma_agree_headers(p1, p3);
    }
    let dirs = update_data_directories(&mut new_data, pad);
    if dirs.is_err() {
        return Err(FlavorError::InvalidPe("optional header outside the image".to_string()));
    }
    let ghost p4 = new_data@;
    proof {
        let cert = data_dir_of(p3) + 32;
        let q = if cert + 8 <= p3.len() { bumped_fields(p3, cert, 8, 1, pad, 0x80) } else { p3 };
        lemma_bumped_agree(p3, cert, 8, 1, pad, 0x80, coff_of(p1) + 20);
        lemma_put_agree(q, coff_of(p3) + 20 + 64, 0, coff_of(p1) + 20);
        lemma_agree_trans(p3, q, p4, coff_of(p1) + 20);
        lemma_agree_trans(p1, p3, p4, coff_of(p1) + 20);
        lemma_agree_headers(p1, p4);
    }
    update_debug_directory(&mut new_data, pad);
    assert(new_data@ == expanded_image(d, off));
    match get_pe_header_offset(new_data.as_slice()) {
        Some(o) => {
            if o != TARGET_DOS_STUB_SIZE {
                return Err(FlavorError::InvalidPe("PE offset not updated".to_string()));
            }
        },
        None => {
            return Err(FlavorError::InvalidPe("PE offset not updated".to_string()));
        },
    }
    Ok(new_data)
}

/// What preparing a launcher gives: a Rust launcher whose PE header sits
/// before 0xF0 is expanded (`None` where expansion fails); every other
/// launcher, Go's included (overlay strategy), stays as it is.
pub open spec fn launcher_for_pspf(d: Seq<u8>) -> Option<Seq<u8>> {
    if launcher_kind(d) == LauncherKind::Rust && pe_header_offset(d)->Some_0 < 0xF0 {
        let off = pe_header_offset(d)->Some_0;
        if expandable(d, off) && pe_header_offset(expanded_image(d, off)) == Some(0xF0int) {
            Some(expanded_image(d, off))
        } else {
            None
        }
    } else {
        Some(d)
    }
}

/// Prepare a launcher for a payload to be appended (see `launcher_for_pspf`).
pub fn process_launcher_for_pspf(launcher_data: Vec<u8>) -> (r: Result<Vec<u8>, FlavorError>)
    ensures
        r is Ok <==> launcher_for_pspf(launcher_data@) is Some,
        r is Ok ==> r->Ok_0@ == launcher_for_pspf(launcher_data@)->Some_0,
        r is Err ==> r->Err_0 is InvalidPe,
{
    match detect_launcher_kind(launcher_data.as_slice()) {
        LauncherKind::Rust => {
            let off = match get_pe_header_offset(launcher_data.as_slice()) {
                Some(o) => o,
                None => {
                    return Ok(launcher_data);
                },
            };
            if off < TARGET_DOS_STUB_SIZE {
                expand_dos_stub(launcher_data)
            } else {
                Ok(launcher_data)
            }
        },
        _ => Ok(launcher_data),
    }
}

} // verus!
