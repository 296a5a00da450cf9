//! Operation chains as the generic operation layer sees them: a chain ends at
//! its first zero code, and chains have names ("tar.gz", "gzip|xz").
use crate::constants::{OP_BZIP2, OP_GZIP, OP_NONE, OP_TAR, OP_XZ, OP_ZSTD};
use crate::operations::packed_ops;
use crate::text::{
    chars_of, lower_of, lowercase, split_chars, split_on, str_equal, trim_range, trimmed, upper_of,
    uppercase,
};
use vstd::bytes::*;
use vstd::prelude::*;
use vstd::string::*;

verus! {

/// Why an operation could not be applied or parsed.
#[derive(Debug, Clone, PartialEq, Eq)]
pub enum OperationError {
    Io(String),
    Compression(String),
    Archive(String),
    NotReversible,
    UnknownOperation(u8),
    InvalidData(String),
}

/// Pack a chain of at most eight codes; a longer one is `InvalidData`.
pub fn pack_operations(operations: &[u8]) -> (r: Result<u64, OperationError>)
    ensures
        r is Err <==> operations@.len() > 8,
        r is Err ==> r->Err_0 is InvalidData,
        r is Ok ==> r->Ok_0 == packed_ops(operations@),
{
    if operations.len() > 8 {
        return Err(OperationError::InvalidData("Maximum 8 operations allowed".to_string()));
    }
    Ok(crate::operations::pack_operations(operations))
}

/// The chain held in `bytes`: the codes before the first zero.
pub open spec fn is_chain_of(r: Seq<u8>, bytes: Seq<u8>) -> bool {
    &&& r.len() <= bytes.len()
    &&& r == bytes.subrange(0, r.len() as int)
    &&& forall|j: int| 0 <= j < r.len() ==> bytes[j] != 0
    &&& (r.len() == bytes.len() || bytes[r.len() as int] == 0)
}

/// Unpack a chain: the codes from the lowest byte up to the first zero.
pub fn unpack_operations(packed: u64) -> (r: Vec<u8>)
    ensures
        is_chain_of(r@, spec_u64_to_le_bytes(packed)),
{
    let bytes = u64_to_le_bytes(packed);
    let mut ops: Vec<u8> = Vec::new();
    let mut i: usize = 0;
    while i < 8
        invariant
            bytes@ == spec_u64_to_le_bytes(packed),
            bytes@.len() == 8,
            i <= 8,
            ops@ == bytes@.subrange(0, i as int),
            forall|j: int| 0 <= j < i ==> bytes@[j] != 0,
        decreases 8 - i,
    {
        if bytes[i] == 0 {
            return ops;
        }
        ops.push(bytes[i]);
        i = i + 1;
        assert(ops@ =~= bytes@.subrange(0, i as int));
    }
    ops
}

/// The name of an operation code.
pub open spec fn op_name(id: u8) -> Seq<char> {
    if id == OP_NONE {
        "NONE"@
    } else if id == OP_TAR {
        "TAR"@
    } else if id == OP_GZIP {
        "GZIP"@
    } else if id == OP_BZIP2 {
        "BZIP2"@
    } else if id == OP_XZ {
        "XZ"@
    } else if id == OP_ZSTD {
        "ZSTD"@
    } else {
        "UNKNOWN"@
    }
}

/// The name of an operation code ("UNKNOWN" for codes without one).
pub fn get_name(id: u8) -> (r: &'static str)
    ensures
        r@ == op_name(id),
{
    if id == OP_NONE {
        "NONE"
    } else if id == OP_TAR {
        "TAR"
    } else if id == OP_GZIP {
        "GZIP"
    } else if id == OP_BZIP2 {
        "BZIP2"
    } else if id == OP_XZ {
        "XZ"
    } else if id == OP_ZSTD {
        "ZSTD"
    } else {
        "UNKNOWN"
    }
}

/// Lower-case hexadecimal digit.
pub open spec fn hex_digit(n: int) -> char {
    if n < 10 {
        ((n + 48) as u8) as char
    } else {
        ((n + 87) as u8) as char
    }
}

/// Two lower-case hexadecimal digits of a byte.
pub open spec fn hex2(b: u8) -> Seq<char> {
    seq![hex_digit(b as int / 16), hex_digit(b as int % 16)]
}

pub fn hex_digit_char(n: u8) -> (c: char)
    requires
        n < 16,
    ensures
        c == hex_digit(n as int),
{
    if n < 10 {
        (n + 48) as char
    } else {
        (n + 87) as char
    }
}

/// The key of a chain: each code as two hex digits, joined by `-`.
pub open spec fn chain_key(ops: Seq<u8>) -> Seq<char>
    decreases ops.len(),
{
    if ops.len() == 0 {
        Seq::empty()
    } else if ops.len() == 1 {
        hex2(ops[0])
    } else {
        chain_key(ops.drop_last()) + seq!['-'] + hex2(ops.last())
    }
}

/// Each code as two lower-case hex digits, joined by `-` ("01-10" for tar then gzip).
pub fn operations_to_chain_key(ops: &[u8]) -> (r: String)
    ensures
        r@ == chain_key(ops@),
{
    let mut r = String::new();
    let mut i: usize = 0;
    while i < ops.len()
        invariant
            i <= ops@.len(),
            r@ == chain_key(ops@.subrange(0, i as int)),
        decreases ops@.len() - i,
    {
        let b = ops[i];
        if i > 0 {
            crate::text::push_char(&mut r, '-');
        }
        crate::text::push_char(&mut r, hex_digit_char(b / 16));
        crate::text::push_char(&mut r, hex_digit_char(b % 16));
        assert(ops@.subrange(0, i + 1).drop_last() =~= ops@.subrange(0, i as int));
        assert(r@ =~= chain_key(ops@.subrange(0, i + 1)));
        i = i + 1;
    }
    assert(ops@.subrange(0, ops@.len() as int) =~= ops@);
    r
}

/// The common name of a chain, where it has one.
pub open spec fn common_chain_name(ops: Seq<u8>) -> Option<Seq<char>> {
    if ops == seq![OP_TAR, OP_GZIP] {
        Some("tar.gz"@)
    } else if ops == seq![OP_TAR, OP_BZIP2] {
        Some("tar.bz2"@)
    } else if ops == seq![OP_TAR, OP_XZ] {
        Some("tar.xz"@)
    } else if ops == seq![OP_TAR, OP_ZSTD] {
        Some("tar.zst"@)
    } else if ops == seq![OP_GZIP] {
        Some("gzip"@)
    } else if ops == seq![OP_BZIP2] {
        Some("bzip2"@)
    } else if ops == seq![OP_XZ] {
        Some("xz"@)
    } else if ops == seq![OP_ZSTD] {
        Some("zstd"@)
    } else if ops == seq![OP_TAR] {
        Some("tar"@)
    } else {
        None
    }
}

/// The lower-case name of an operation code.
pub open spec fn op_name_lower(id: u8) -> Seq<char> {
    if id == OP_NONE {
        "none"@
    } else if id == OP_TAR {
        "tar"@
    } else if id == OP_GZIP {
        "gzip"@
    } else if id == OP_BZIP2 {
        "bzip2"@
    } else if id == OP_XZ {
        "xz"@
    } else if id == OP_ZSTD {
        "zstd"@
    } else {
        "unknown"@
    }
}

fn name_lower(id: u8) -> (r: &'static str)
    ensures
        r@ == op_name_lower(id),
{
    if id == OP_NONE {
        "none"
    } else if id == OP_TAR {
        "tar"
    } else if id == OP_GZIP {
        "gzip"
    } else if id == OP_BZIP2 {
        "bzip2"
    } else if id == OP_XZ {
        "xz"
    } else if id == OP_ZSTD {
        "zstd"
    } else {
        "unknown"
    }
}

/// The lower-case names of the codes, joined by `|`.
pub open spec fn piped_names(ops: Seq<u8>) -> Seq<char>
    decreases ops.len(),
{
    if ops.len() == 0 {
        Seq::empty()
    } else if ops.len() == 1 {
        op_name_lower(ops[0])
    } else {
        piped_names(ops.drop_last()) + seq!['|'] + op_name_lower(ops.last())
    }
}

/// The readable form of a packed chain.
pub open spec fn ops_string(packed: u64, ops: Seq<u8>) -> Seq<char> {
    if packed == 0 {
        "raw"@
    } else {
        match common_chain_name(ops) {
            Some(n) => n,
            None => piped_names(ops),
        }
    }
}

fn eq2(a: &[u8], x: u8, y: u8) -> (r: bool)
    ensures
        r == (a@ == seq![x, y]),
{
    let r = a.len() == 2 && a[0] == x && a[1] == y;
    assert(r ==> a@ =~= seq![x, y]);
    r
}

fn eq1(a: &[u8], x: u8) -> (r: bool)
    ensures
        r == (a@ == seq![x]),
{
    let r = a.len() == 1 && a[0] == x;
    assert(r ==> a@ =~= seq![x]);
    r
}

/// The readable form of a packed chain: "raw" for none, its common name
/// ("tar.gz"), or the lower-case code names joined by `|`.
pub fn operations_to_string(packed: u64) -> (r: String)
    ensures
        exists|ops: Seq<u8>| is_chain_of(ops, spec_u64_to_le_bytes(packed)) && r@ == ops_string(packed, ops),
{
    let ops = unpack_operations(packed);
    proof {
        reveal_strlit("raw");
    }
    if packed == 0 {
        let r = String::from_str("raw");
        assert(is_chain_of(ops@, spec_u64_to_le_bytes(packed)) && r@ == ops_string(packed, ops@));
        return r;
    }
    let o = ops.as_slice();
    let name: Option<&str> = if eq2(o, OP_TAR, OP_GZIP) {
        Some("tar.gz")
    } else if eq2(o, OP_TAR, OP_BZIP2) {
        Some("tar.bz2")
    } else if eq2(o, OP_TAR, OP_XZ) {
        Some("tar.xz")
    } else if eq2(o, OP_TAR, OP_ZSTD) {
        Some("tar.zst")
    } else if eq1(o, OP_GZIP) {
        Some("gzip")
    } else if eq1(o, OP_BZIP2) {
        Some("bzip2")
    } else if eq1(o, OP_XZ) {
        Some("xz")
    } else if eq1(o, OP_ZSTD) {
        Some("zstd")
    } else if eq1(o, OP_TAR) {
        Some("tar")
    } else {
        None
    };
    match name {
        Some(n) => {
            let r = String::from_str(n);
            assert(is_chain_of(ops@, spec_u64_to_le_bytes(packed)) && r@ == ops_string(packed, ops@));
            r
        },
        None => {
            let mut r = String::new();
            let mut i: usize = 0;
            while i < ops.len()
                invariant
                    i <= ops@.len(),
                    r@ == piped_names(ops@.subrange(0, i as int)),
                decreases ops@.len() - i,
            {
                if i > 0 {
                    crate::text::push_char(&mut r, '|');
                }
                r.append(name_lower(ops[i]));
                assert(ops@.subrange(0, i + 1).drop_last() =~= ops@.subrange(0, i as int));
                assert(r@ =~= piped_names(ops@.subrange(0, i + 1)));
                i = i + 1;
            }
            assert(ops@.subrange(0, ops@.len() as int) =~= ops@);
            assert(is_chain_of(ops@, spec_u64_to_le_bytes(packed)) && r@ == ops_string(packed, ops@));
            r
        },
    }
}

/// A part that names no code spoils every longer list of parts.
proof fn lemma_piped_none(parts: Seq<Seq<char>>, k: int)
    requires
        0 <= k <= parts.len(),
        piped_codes(parts.subrange(0, k)) is None,
    ensures
        piped_codes(parts) is None,
    decreases parts.len() - k,
{
    if k < parts.len() {
        assert(parts.subrange(0, k + 1).drop_last() =~= parts.subrange(0, k));
        lemma_piped_none(parts, k + 1);
    } else {
        assert(parts.subrange(0, k) =~= parts);
    }
}

} // verus!

verus! {

/// The chains known by name.
pub open spec fn named_chain(s: Seq<char>) -> Option<Seq<u8>> {
    if s == "raw"@ {
        Some(Seq::empty())
    } else if s == "gzip"@ {
        Some(seq![OP_GZIP])
    } else if s == "bzip2"@ {
        Some(seq![OP_BZIP2])
    } else if s == "xz"@ {
        Some(seq![OP_XZ])
    } else if s == "zstd"@ {
        Some(seq![OP_ZSTD])
    } else if s == "tar"@ {
        Some(seq![OP_TAR])
    } else if s == "tar.gz"@ || s == "tgz"@ {
        Some(seq![OP_TAR, OP_GZIP])
    } else if s == "tar.bz2"@ || s == "tbz2"@ {
        Some(seq![OP_TAR, OP_BZIP2])
    } else if s == "tar.xz"@ || s == "txz"@ {
        Some(seq![OP_TAR, OP_XZ])
    } else if s == "tar.zst"@ {
        Some(seq![OP_TAR, OP_ZSTD])
    } else {
        None
    }
}

/// The code that one `|`-separated part names, compared in upper case.
pub open spec fn part_code(p: Seq<char>) -> Option<u8> {
    upper_code(upper_of(trimmed(p)))
}

/// The code an upper-case operation name names.
pub open spec fn upper_code(u: Seq<char>) -> Option<u8> {
    if u == "TAR"@ {
        Some(OP_TAR)
    } else if u == "GZIP"@ {
        Some(OP_GZIP)
    } else if u == "BZIP2"@ {
        Some(OP_BZIP2)
    } else if u == "XZ"@ {
        Some(OP_XZ)
    } else if u == "ZSTD"@ {
        Some(OP_ZSTD)
    } else {
        None
    }
}

/// The codes of the parts (blank parts skipped); `None` when a part names no code.
pub open spec fn piped_codes(parts: Seq<Seq<char>>) -> Option<Seq<u8>>
    decreases parts.len(),
{
    if parts.len() == 0 {
        Some(Seq::empty())
    } else {
        match piped_codes(parts.drop_last()) {
            None => None,
            Some(ops) => if trimmed(parts.last()).len() == 0 {
                Some(ops)
            } else {
                match part_code(parts.last()) {
                    None => None,
                    Some(c) => Some(ops.push(c)),
                }
            },
        }
    }
}

/// The codes a chain string names, when it names a valid chain.
pub open spec fn parsed_chain(s: Seq<char>) -> Option<Seq<u8>> {
    if s.len() == 0 {
        Some(Seq::empty())
    } else {
        parsed_lowered(lower_of(s))
    }
}

/// The codes a lower-cased chain string names, when it names a valid chain.
pub open spec fn parsed_lowered(l: Seq<char>) -> Option<Seq<u8>> {
    if l == "raw"@ {
        Some(Seq::empty())
    } else {
        match named_chain(l) {
            Some(ops) => Some(ops),
            None => if l.contains('|') {
                match piped_codes(split_on(l, '|')) {
                    Some(ops) => if ops.len() <= 8 {
                        Some(ops)
                    } else {
                        None
                    },
                    None => None,
                }
            } else {
                None
            },
        }
    }
}

fn named_chain_of(l: &str) -> (r: Option<Vec<u8>>)
    ensures
        r is Some <==> named_chain(l@) is Some,
        r is Some ==> r->Some_0@ == named_chain(l@)->Some_0,
{
    if str_equal(l, "raw") {
        Some(Vec::new())
    } else if str_equal(l, "gzip") {
        Some(vec![OP_GZIP])
    } else if str_equal(l, "bzip2") {
        Some(vec![OP_BZIP2])
    } else if str_equal(l, "xz") {
        Some(vec![OP_XZ])
    } else if str_equal(l, "zstd") {
        Some(vec![OP_ZSTD])
    } else if str_equal(l, "tar") {
        Some(vec![OP_TAR])
    } else if str_equal(l, "tar.gz") || str_equal(l, "tgz") {
        Some(vec![OP_TAR, OP_GZIP])
    } else if str_equal(l, "tar.bz2") || str_equal(l, "tbz2") {
        Some(vec![OP_TAR, OP_BZIP2])
    } else if str_equal(l, "tar.xz") || str_equal(l, "txz") {
        Some(vec![OP_TAR, OP_XZ])
    } else if str_equal(l, "tar.zst") {
        Some(vec![OP_TAR, OP_ZSTD])
    } else {
        None
    }
}

fn part_code_of(part: &String) -> (r: Option<u8>)
    ensures
        r == part_code(part@),
{
    let v = chars_of(part.as_str());
    let (b, e) = trim_range(&v, 0, v.len());
    assert(v@.subrange(0, v@.len() as int) =~= v@);
    let t = crate::text::string_of(&v, b, e);
    let u = uppercase(t.as_str());
    code_of_upper(u.as_str())
}

/// The code an upper-case operation name ("TAR", "GZIP", ...) names.
pub fn code_of_upper(us: &str) -> (r: Option<u8>)
    ensures
        r == upper_code(us@),
{
    if str_equal(us, "TAR") {
        Some(OP_TAR)
    } else if str_equal(us, "GZIP") {
        Some(OP_GZIP)
    } else if str_equal(us, "BZIP2") {
        Some(OP_BZIP2)
    } else if str_equal(us, "XZ") {
        Some(OP_XZ)
    } else if str_equal(us, "ZSTD") {
        Some(OP_ZSTD)
    } else {
        None
    }
}

/// Parse a lower-cased chain string: "raw" for none, a chain name ("tgz",
/// "tar.gz", ...) or code names joined by `|` (compared in upper case).
pub fn chain_from_lowered(lower: &str) -> (r: Result<u64, OperationError>)
    ensures
        r is Ok <==> parsed_lowered(lower@) is Some,
        r is Ok ==> r->Ok_0 == packed_ops(parsed_lowered(lower@)->Some_0),
{
    if str_equal(lower, "raw") {
        proof {
            crate::operations::lemma_pack_unpack_round_trip(Seq::<u8>::empty());
        }
        let empty: Vec<u8> = Vec::new();
        return Ok(crate::operations::pack_operations(empty.as_slice()));
    }
    match named_chain_of(lower) {
        Some(ops) => {
            return Ok(crate::operations::pack_operations(ops.as_slice()));
        },
        None => {},
    }
    if !crate::text::contains_char(lower, '|') {
        return Err(OperationError::InvalidData("Unknown operation string".to_string()));
    }
    let lv = chars_of(lower);
    let parts = split_chars(&lv, '|');
    let mut ops: Vec<u8> = Vec::new();
    let mut i: usize = 0;
    while i < parts.len()
        invariant
            i <= parts@.len(),
            lv@ == lower@,
            lower@ != "raw"@,
            named_chain(lower@) is None,
            lower@.contains('|'),
            parts@.len() == split_on(lv@, '|').len(),
            forall|k: int| 0 <= k < parts@.len() ==> #[trigger] parts@[k]@ == split_on(lv@, '|')[k],
            piped_codes(split_on(lv@, '|').subrange(0, i as int)) == Some(ops@),
        decreases parts@.len() - i,
    {
        let ghost all = split_on(lv@, '|');
        assert(all.subrange(0, i + 1).drop_last() =~= all.subrange(0, i as int));
        assert(all.subrange(0, i + 1).last() == parts@[i as int]@);
        let pv = chars_of(parts[i].as_str());
        let (b, e) = trim_range(&pv, 0, pv.len());
        assert(pv@.subrange(0, pv@.len() as int) =~= pv@);
        if b == e {
            assert(trimmed(parts@[i as int]@) =~= Seq::<char>::empty());
        } else {
            match part_code_of(&parts[i]) {
                Some(c) => {
                    ops.push(c);
                },
                None => {
                    proof {
                        assert(pv@.subrange(b as int, e as int).len() > 0);
                        assert(piped_codes(all.subrange(0, i + 1)) is None);
                        lemma_piped_none(all, i + 1);
                    }
                    return Err(OperationError::InvalidData("Unsupported operation".to_string()));
                },
            }
        }
        i = i + 1;
    }
    assert(split_on(lv@, '|').subrange(0, parts@.len() as int) =~= split_on(lv@, '|'));
    pack_operations(ops.as_slice())
}

/// Parse a chain string: "" or "raw" for none, a chain name ("tgz",
/// "tar.gz", ...) or code names joined by `|`, in any case.
pub fn string_to_operations(op_string: &str) -> (r: Result<u64, OperationError>)
    ensures
        r is Ok <==> parsed_chain(op_string@) is Some,
        r is Ok ==> r->Ok_0 == packed_ops(parsed_chain(op_string@)->Some_0),
{
    if op_string.unicode_len() == 0 {
        proof {
            crate::operations::lemma_pack_unpack_round_trip(Seq::<u8>::empty());
        }
        let empty: Vec<u8> = Vec::new();
        return Ok(crate::operations::pack_operations(empty.as_slice()));
    }
    let lower = lowercase(op_string);
    chain_from_lowered(lower.as_str())
}

} // verus!

verus! {

/// A reversible transformation of bytes, identified by its operation code.
pub trait Operation {
    /// The operation code.
    fn id(&self) -> u8;

    /// Apply the operation (as a build does).
    fn apply(&self, input: &[u8]) -> Result<Vec<u8>, OperationError>;

    /// Undo the operation (as extraction does).
    fn reverse(&self, input: &[u8]) -> Result<Vec<u8>, OperationError>;
}

/// gzip compression.
pub struct GzipOperation;

impl Operation for GzipOperation {
    fn id(&self) -> u8 {
        OP_GZIP
    }

    fn apply(&self, input: &[u8]) -> Result<Vec<u8>, OperationError> {
        Ok(crate::crypto::gzip(input))
    }

    fn reverse(&self, input: &[u8]) -> Result<Vec<u8>, OperationError> {
        match crate::crypto::gunzip(input) {
            Ok(v) => Ok(v),
            Err(e) => Err(OperationError::Compression(e)),
        }
    }
}

impl GzipOperation {
    /// Compress; the result decompresses to `input`.
    pub fn compress(&self, input: &[u8]) -> (r: Vec<u8>)
        ensures
            crate::crypto::gunzip_ok(r@),
            crate::crypto::gunzip_of(r@) == input@,
    {
        crate::crypto::gzip(input)
    }

    /// Decompress a complete gzip stream; anything else is a compression error.
    pub fn decompress(&self, input: &[u8]) -> (r: Result<Vec<u8>, OperationError>)
        ensures
            r is Ok <==> crate::crypto::gunzip_ok(input@),
            r is Ok ==> r->Ok_0@ == crate::crypto::gunzip_of(input@),
            r is Err ==> r->Err_0 is Compression,
    {
        match crate::crypto::gunzip(input) {
            Ok(v) => Ok(v),
            Err(e) => Err(OperationError::Compression(e)),
        }
    }
}

} // verus!
