//! Little-endian field access and the checksum primitives of the format.
use vstd::bytes::*;
use vstd::prelude::*;
use vstd::slice::*;

verus! {

/// The Adler-32 checksum of a byte sequence.
pub uninterp spec fn adler32_of(data: Seq<u8>) -> u32;

/// The SHA-256 digest of a byte sequence.
pub uninterp spec fn sha256_of(data: Seq<u8>) -> Seq<u8>;

/// Relies on `adler::adler32_slice`: the Adler-32 checksum of `data`.
#[verifier::external_body]
pub(crate) fn adler32(data: &[u8]) -> (r: u32)
    ensures
        r == adler32_of(data@),
{
    adler::adler32_slice(data)
}

/// Relies on `sha2::Sha256::digest`: the 32-byte SHA-256 digest of `data`.
#[verifier::external_body]
pub(crate) fn sha256(data: &[u8]) -> (r: Vec<u8>)
    ensures
        r@ == sha256_of(data@),
        r@.len() == 32,
{
    <sha2::Sha256 as sha2::Digest>::digest(data).to_vec()
}

/// Append all of `src` to `out`.
pub fn append_bytes(out: &mut Vec<u8>, src: &[u8])
    ensures
        final(out)@ == old(out)@ + src@,
{
    let mut i: usize = 0;
    while i < src.len()
        invariant
            i <= src@.len(),
            out@ == old(out)@ + src@.subrange(0, i as int),
        decreases src@.len() - i,
    {
        out.push(src[i]);
        i = i + 1;
        assert(src@.subrange(0, i as int) == src@.subrange(0, i - 1).push(src@[i - 1]));
    }
    assert(src@.subrange(0, src@.len() as int) == src@);
}

/// Append the four little-endian bytes of `x`.
pub fn append_u32(out: &mut Vec<u8>, x: u32)
    ensures
        final(out)@ == old(out)@ + spec_u32_to_le_bytes(x),
{
    let mut b = u32_to_le_bytes(x);
    out.append(&mut b);
}

/// Append the eight little-endian bytes of `x`.
pub fn append_u64(out: &mut Vec<u8>, x: u64)
    ensures
        final(out)@ == old(out)@ + spec_u64_to_le_bytes(x),
{
    let mut b = u64_to_le_bytes(x);
    out.append(&mut b);
}

/// The `u32` stored little-endian at `data[off..off + 4]`.
pub fn read_u32(data: &[u8], off: usize) -> (r: u32)
    requires
        off + 4 <= data@.len(),
    ensures
        r == spec_u32_from_le_bytes(data@.subrange(off as int, off + 4)),
        spec_u32_to_le_bytes(r) == data@.subrange(off as int, off + 4),
{
    proof { lemma_auto_spec_u32_to_from_le_bytes(); }
    let len = data.len();
    assert(off <= len);
    u32_from_le_bytes(slice_subrange(data, off, off + 4))
}

/// The `u64` stored little-endian at `data[off..off + 8]`.
pub fn read_u64(data: &[u8], off: usize) -> (r: u64)
    requires
        off + 8 <= data@.len(),
    ensures
        r == spec_u64_from_le_bytes(data@.subrange(off as int, off + 8)),
        spec_u64_to_le_bytes(r) == data@.subrange(off as int, off + 8),
{
    proof { lemma_auto_spec_u64_to_from_le_bytes(); }
    let len = data.len();
    assert(off <= len);
    u64_from_le_bytes(slice_subrange(data, off, off + 8))
}

/// The `u16` stored little-endian at `data[off..off + 2]`.
pub fn read_u16(data: &[u8], off: usize) -> (r: u16)
    requires
        off + 2 <= data@.len(),
    ensures
        r == spec_u16_from_le_bytes(data@.subrange(off as int, off + 2)),
        spec_u16_to_le_bytes(r) == data@.subrange(off as int, off + 2),
{
    proof { lemma_auto_spec_u16_to_from_le_bytes(); }
    let len = data.len();
    assert(off <= len);
    u16_from_le_bytes(slice_subrange(data, off, off + 2))
}

/// The `N` bytes at `data[off..off + N]` as an array.
pub fn read_array<const N: usize>(data: &[u8], off: usize) -> (r: [u8; N])
    requires
        off + N <= data@.len(),
    ensures
        r@ == data@.subrange(off as int, off + N),
{
    let len = data.len();
    let mut r = [0u8; N];
    let mut i: usize = 0;
    while i < N
        invariant
            i <= N,
            off + N <= data@.len(),
            len == data@.len(),
            r@.len() == N,
            forall|j: int| 0 <= j < i ==> r@[j] == data@[off + j],
        decreases N - i,
    {
        r[i] = data[off + i];
        i = i + 1;
    }
    assert(r@ == data@.subrange(off as int, off + N));
    r
}

/// Whether `data[off..off + 4]` holds the bytes `a b c d`.
pub fn bytes_at_eq4(data: &[u8], off: usize, a: u8, b: u8, c: u8, d: u8) -> (r: bool)
    requires
        off + 4 <= data@.len(),
    ensures
        r == (data@.subrange(off as int, off + 4) == seq![a, b, c, d]),
{
    let r = data[off] == a && data[off + 1] == b && data[off + 2] == c && data[off + 3] == d;
    assert(r ==> data@.subrange(off as int, off + 4) =~= seq![a, b, c, d]);
    assert(data@.subrange(off as int, off + 4) == seq![a, b, c, d] ==> {
        &&& data@.subrange(off as int, off + 4)[0] == a
        &&& data@.subrange(off as int, off + 4)[1] == b
        &&& data@.subrange(off as int, off + 4)[2] == c
        &&& data@.subrange(off as int, off + 4)[3] == d
    });
    r
}

/// Whether every byte of `data` is zero.
pub fn all_zero(data: &[u8]) -> (r: bool)
    ensures
        r == (forall|i: int| 0 <= i < data@.len() ==> data@[i] == 0),
{
    let mut i: usize = 0;
    while i < data.len()
        invariant
            i <= data@.len(),
            forall|j: int| 0 <= j < i ==> data@[j] == 0,
        decreases data@.len() - i,
    {
        if data[i] != 0 {
            return false;
        }
        i = i + 1;
    }
    true
}

} // verus!

verus! {

/// The `u32` stored little-endian at `s[at..at + 4]`.
pub open spec fn u32_at(s: Seq<u8>, at: int) -> u32 {
    spec_u32_from_le_bytes(s.subrange(at, at + 4))
}

/// The `u16` stored little-endian at `s[at..at + 2]`.
pub open spec fn u16_at(s: Seq<u8>, at: int) -> u16 {
    spec_u16_from_le_bytes(s.subrange(at, at + 2))
}

/// `s` with the four bytes at `at` replaced by the little-endian bytes of `x`.
pub open spec fn put_u32(s: Seq<u8>, at: int, x: u32) -> Seq<u8> {
    s.subrange(0, at) + spec_u32_to_le_bytes(x) + s.subrange(at + 4, s.len() as int)
}

/// Store `x` little-endian at `data[at..at + 4]`.
pub fn write_u32(data: &mut Vec<u8>, at: usize, x: u32)
    requires
        at + 4 <= old(data)@.len(),
    ensures
        final(data)@ == put_u32(old(data)@, at as int, x),
        final(data)@.len() == old(data)@.len(),
        u32_at(final(data)@, at as int) == x,
{
    proof { lemma_auto_spec_u32_to_from_le_bytes(); }
    let len = data.len();
    assert(at + 4 <= len);
    let b = u32_to_le_bytes(x);
    data.set(at, b[0]);
    data.set(at + 1, b[1]);
    data.set(at + 2, b[2]);
    data.set(at + 3, b[3]);
    assert(data@ =~= put_u32(old(data)@, at as int, x));
    assert(data@.subrange(at as int, at + 4) =~= b@);
}

} // verus!

verus! {

/// The SHA-512 digest of a byte sequence.
pub uninterp spec fn sha512_of(data: Seq<u8>) -> Seq<u8>;

/// Relies on `sha2::Sha512::digest`: the 64-byte SHA-512 digest of `data`.
#[verifier::external_body]
pub(crate) fn sha512(data: &[u8]) -> (r: Vec<u8>)
    ensures
        r@ == sha512_of(data@),
        r@.len() == 64,
{
    <sha2::Sha512 as sha2::Digest>::digest(data).to_vec()
}

} // verus!
