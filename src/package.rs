//! Laying a package out (launcher, index reserve, metadata, slot table, slot
//! payloads, magic trailer) and reading those regions back from its bytes.
use crate::codec::{append_bytes, sha256, sha256_of};
use crate::constants::{
    magic_wand, package_emoji, HEADER_SIZE, MAGIC_TRAILER_SIZE, MAGIC_WAND_0, MAGIC_WAND_1,
    MAGIC_WAND_2, MAGIC_WAND_3, PACKAGE_EMOJI_0, PACKAGE_EMOJI_1, PACKAGE_EMOJI_2, PACKAGE_EMOJI_3,
    SLOT_DESCRIPTOR_SIZE,
};
use crate::error::FlavorError;
use crate::index::{index_bytes, with_checksum, Index};
use crate::slots::{align_offset, descriptor_bytes, SlotDescriptor};
use vstd::prelude::*;
use vstd::slice::slice_subrange;

verus! {

/// `d` holds `bytes` at `off`.
pub open spec fn region(d: Seq<u8>, off: int, bytes: Seq<u8>) -> bool {
    0 <= off && off + bytes.len() <= d.len() && d.subrange(off, off + bytes.len()) == bytes
}

/// A package's last 8200 bytes: the opening sentinel, the index block and the
/// closing sentinel.
pub open spec fn trailer_ok(d: Seq<u8>) -> bool {
    &&& d.len() >= MAGIC_TRAILER_SIZE
    &&& d.subrange(d.len() - 8200, d.len() - 8196) == package_emoji()
    &&& d.subrange(d.len() - 4, d.len() as int) == magic_wand()
}

/// The index block of a package: the 8192 bytes between the sentinels.
pub open spec fn trailer_index(d: Seq<u8>) -> Seq<u8> {
    d.subrange(d.len() - 8196, d.len() - 4)
}

/// The magic trailer that closes a package whose index is `idx`.
pub open spec fn trailer_bytes(idx: Index) -> Seq<u8> {
    package_emoji() + with_checksum(index_bytes(idx)) + magic_wand()
}

/// Locate the index block through the magic trailer. Fails with
/// `InvalidMagic` when the data is shorter than the trailer or either
/// sentinel is wrong.
pub fn read_magic_trailer(data: &[u8]) -> (r: Result<Vec<u8>, FlavorError>)
    ensures
        r is Ok <==> trailer_ok(data@),
        r is Err ==> r == Err::<Vec<u8>, FlavorError>(FlavorError::InvalidMagic),
        r is Ok ==> r->Ok_0@ == trailer_index(data@) && r->Ok_0@.len() == HEADER_SIZE,
{
    let len = data.len();
    if len < MAGIC_TRAILER_SIZE {
        return Err(FlavorError::InvalidMagic);
    }
    let start = len - MAGIC_TRAILER_SIZE;
    let open = crate::codec::bytes_at_eq4(
        data,
        start,
        PACKAGE_EMOJI_0,
        PACKAGE_EMOJI_1,
        PACKAGE_EMOJI_2,
        PACKAGE_EMOJI_3,
    );
    if !open {
        return Err(FlavorError::InvalidMagic);
    }
    let close = crate::codec::bytes_at_eq4(
        data,
        len - 4,
        MAGIC_WAND_0,
        MAGIC_WAND_1,
        MAGIC_WAND_2,
        MAGIC_WAND_3,
    );
    if !close {
        return Err(FlavorError::InvalidMagic);
    }
    let mut out: Vec<u8> = Vec::new();
    append_bytes(&mut out, slice_subrange(data, start + 4, len - 4));
    Ok(out)
}

/// The bytes of a region named by an offset and a size, when it lies inside
/// the data; `InvalidSize` otherwise.
pub fn read_at(data: &[u8], offset: u64, size: u64) -> (r: Result<Vec<u8>, FlavorError>)
    ensures
        r is Ok <==> offset + size <= data@.len(),
        r is Err ==> r == Err::<Vec<u8>, FlavorError>(FlavorError::InvalidSize),
        r is Ok ==> r->Ok_0@ == data@.subrange(offset as int, offset + size),
{
    let len = data.len();
    if offset > len as u64 || size > len as u64 - offset {
        return Err(FlavorError::InvalidSize);
    }
    let mut out: Vec<u8> = Vec::new();
    append_bytes(&mut out, slice_subrange(data, offset as usize, (offset + size) as usize));
    Ok(out)
}

/// The compressed metadata of a package, after checking its SHA-256 against
/// the index: `ChecksumMismatch` when they differ.
pub fn read_metadata_bytes(data: &[u8], index: &Index) -> (r: Result<Vec<u8>, FlavorError>)
    ensures
        r is Ok <==> (index.metadata_offset + index.metadata_size <= data@.len() && sha256_of(
            data@.subrange(
                index.metadata_offset as int,
                index.metadata_offset + index.metadata_size,
            ),
        ) == index.metadata_checksum@),
        index.metadata_offset + index.metadata_size > data@.len() ==> r == Err::<
            Vec<u8>,
            FlavorError,
        >(FlavorError::InvalidSize),
        index.metadata_offset + index.metadata_size <= data@.len() && r is Err ==> r == Err::<
            Vec<u8>,
            FlavorError,
        >(FlavorError::ChecksumMismatch),
        r is Ok ==> r->Ok_0@ == data@.subrange(
            index.metadata_offset as int,
            index.metadata_offset + index.metadata_size,
        ),
{
    let bytes = read_at(data, index.metadata_offset, index.metadata_size)?;
    let digest = sha256(bytes.as_slice());
    if !bytes_equal(digest.as_slice(), index.metadata_checksum.as_slice()) {
        return Err(FlavorError::ChecksumMismatch);
    }
    Ok(bytes)
}

/// Whether two byte strings are equal.
pub fn bytes_equal(a: &[u8], b: &[u8]) -> (r: bool)
    ensures
        r == (a@ == b@),
{
    if a.len() != b.len() {
        return false;
    }
    let mut i: usize = 0;
    while i < a.len()
        invariant
            a@.len() == b@.len(),
            i <= a@.len(),
            forall|j: int| 0 <= j < i ==> a@[j] == b@[j],
        decreases a@.len() - i,
    {
        if a[i] != b[i] {
            return false;
        }
        i = i + 1;
    }
    assert(a@ =~= b@);
    true
}

/// The `slot_count` descriptors of the slot table.
pub fn read_slot_descriptors(data: &[u8], index: &Index) -> (r: Result<
    Vec<SlotDescriptor>,
    FlavorError,
>)
    ensures
        r is Ok <==> index.slot_table_offset + 64 * index.slot_count <= data@.len(),
        r is Err ==> r == Err::<Vec<SlotDescriptor>, FlavorError>(FlavorError::InvalidSize),
        r is Ok ==> r->Ok_0@.len() == index.slot_count && forall|i: int|
            0 <= i < index.slot_count ==> region(
                data@,
                index.slot_table_offset + 64 * i,
                descriptor_bytes(#[trigger] r->Ok_0@[i]),
            ),
{
    let len = data.len();
    let count = index.slot_count as u64;
    let table = index.slot_table_offset;
    if table > len as u64 || count > (len as u64 - table) / 64 {
        assert(table + 64 * count > len) by (nonlinear_arith)
            requires
                table > len || count > (len - table) / 64,
        ;
        return Err(FlavorError::InvalidSize);
    }
    assert(table + 64 * count <= len) by (nonlinear_arith)
        requires
            table <= len,
            count <= (len - table) / 64,
    ;
    let mut out: Vec<SlotDescriptor> = Vec::new();
    let mut i: u64 = 0;
    while i < count
        invariant
            table + 64 * count <= len,
            len == data@.len(),
            count == index.slot_count,
            table == index.slot_table_offset,
            i <= count,
            out@.len() == i,
            forall|k: int|
                0 <= k < i ==> region(data@, table + 64 * k, descriptor_bytes(#[trigger] out@[k])),
        decreases count - i,
    {
        assert(table + 64 * i + 64 <= table + 64 * count) by (nonlinear_arith)
            requires
                i < count,
        ;
        let at = (table + 64 * i) as usize;
        let rec = slice_subrange(data, at, at + SLOT_DESCRIPTOR_SIZE);
        let d = match SlotDescriptor::unpack(rec) {
            Some(d) => d,
            None => {
                return Err(FlavorError::InvalidSize);
            },
        };
        out.push(d);
        i = i + 1;
    }
    Ok(out)
}

/// The stored bytes of one slot.
pub fn read_slot(data: &[u8], descriptor: &SlotDescriptor) -> (r: Result<Vec<u8>, FlavorError>)
    ensures
        r is Ok <==> descriptor.offset + descriptor.size <= data@.len(),
        r is Ok ==> r->Ok_0@ == data@.subrange(
            descriptor.offset as int,
            descriptor.offset + descriptor.size,
        ),
{
    read_at(data, descriptor.offset, descriptor.size)
}

} // verus!

verus! {

/// Room that the slot payloads take at most: each its length plus up to
/// seven bytes of alignment.
pub open spec fn payload_budget(p: Seq<Vec<u8>>, i: int) -> int
    decreases i,
{
    if i <= 0 || i > p.len() {
        0
    } else {
        payload_budget(p, i - 1) + 7 + p[i - 1]@.len()
    }
}

proof fn lemma_budget_mono(p: Seq<Vec<u8>>, i: int, j: int)
    requires
        0 <= i <= j <= p.len(),
    ensures
        payload_budget(p, i) <= payload_budget(p, j),
    decreases j - i,
{
    if i < j {
        lemma_budget_mono(p, i, j - 1);
    }
}

proof fn lemma_region_left(a: Seq<u8>, b: Seq<u8>, off: int, p: Seq<u8>)
    requires
        region(a, off, p),
    ensures
        region(a + b, off, p),
{
    assert((a + b).subrange(off, off + p.len()) =~= a.subrange(off, off + p.len()));
}

proof fn lemma_region_right(a: Seq<u8>, b: Seq<u8>, off: int, p: Seq<u8>)
    requires
        region(b, off, p),
    ensures
        region(a + b, a.len() + off, p),
{
    assert((a + b).subrange(a.len() + off, a.len() + off + p.len()) =~= b.subrange(
        off,
        off + p.len(),
    ));
}

/// Bytes from `x` to the next multiple of eight.
pub open spec fn pad8(x: int) -> int {
    (8 - x % 8) % 8
}

/// `n` zero bytes.
pub open spec fn zeros(n: int) -> Seq<u8> {
    Seq::new(n as nat, |i: int| 0u8)
}

/// The payload area of the first `k` slots when it starts at file offset
/// `base`: each stored payload after zeros up to the next multiple of eight;
/// self-referential slots take no room.
pub open spec fn payload_area(payloads: Seq<Vec<u8>>, self_ref: Seq<bool>, base: int, k: int) -> Seq<u8>
    decreases k,
{
    if k <= 0 {
        Seq::empty()
    } else {
        let t = payload_area(payloads, self_ref, base, k - 1);
        if self_ref[k - 1] {
            t
        } else {
            t + zeros(pad8(base + t.len())) + payloads[k - 1]@
        }
    }
}

/// Where the payload of slot `k` starts.
pub open spec fn payload_offset(payloads: Seq<Vec<u8>>, self_ref: Seq<bool>, base: int, k: int) -> int {
    let t = payload_area(payloads, self_ref, base, k);
    base + t.len() + pad8(base + t.len())
}

/// The slot table: the descriptors' bytes in order.
pub open spec fn table_bytes(descs: Seq<SlotDescriptor>, k: int) -> Seq<u8>
    decreases k,
{
    if k <= 0 {
        Seq::empty()
    } else {
        table_bytes(descs, k - 1) + descriptor_bytes(descs[k - 1])
    }
}

/// A package laid out in memory, with the index and descriptors it holds.
pub struct BuiltPackage {
    pub bytes: Vec<u8>,
    pub index: Index,
    pub descriptors: Vec<SlotDescriptor>,
}

/// The descriptor a slot gets once its payload is placed: offset and size of
/// the stored bytes, or zero for both for a self-referential slot.
pub open spec fn placed(d: SlotDescriptor, offset: u64, size: u64) -> SlotDescriptor {
    SlotDescriptor { offset, size, ..d }
}

/// Append `n` zero bytes.
fn append_zeros(out: &mut Vec<u8>, n: usize)
    ensures
        final(out)@ == old(out)@ + Seq::new(n as nat, |i: int| 0u8),
{
    let mut k: usize = 0;
    while k < n
        invariant
            k <= n,
            out@ == old(out)@ + Seq::new(k as nat, |i: int| 0u8),
        decreases n - k,
    {
        out.push(0);
        k = k + 1;
        assert(out@ =~= old(out)@ + Seq::new(k as nat, |i: int| 0u8));
    }
}

/// What `assemble_package` promises of the package `d` it lays out, whose
/// index is `idx` and whose slot table holds `placed_descs`.
pub open spec fn package_layout(
    launcher: Seq<u8>,
    metadata: Seq<u8>,
    payloads: Seq<Vec<u8>>,
    descriptors: Seq<SlotDescriptor>,
    self_ref: Seq<bool>,
    base: Index,
    d: Seq<u8>,
    idx: Index,
    placed_descs: Seq<SlotDescriptor>,
) -> bool {
    let n = descriptors.len();
    &&& d.len() >= MAGIC_TRAILER_SIZE
    &&& d.len() == idx.package_size
    &&& d.subrange(0, launcher.len() as int) == launcher
    &&& idx.launcher_size == launcher.len()
    &&& idx.metadata_offset == launcher.len() + 8192
    &&& idx.metadata_size == metadata.len()
    &&& region(d, idx.metadata_offset as int, metadata)
    &&& idx.slot_table_offset % 8 == 0
    &&& idx.metadata_offset + idx.metadata_size <= idx.slot_table_offset
    &&& idx.slot_table_offset < idx.metadata_offset + idx.metadata_size + 8
    &&& idx.slot_count == n
    &&& idx.slot_table_size == 64 * n
    &&& idx.slot_table_offset + idx.slot_table_size <= idx.package_size - 8200
    &&& idx.slot_table_offset == idx.metadata_offset + idx.metadata_size + pad8(idx.metadata_offset + idx.metadata_size)
    &&& d == launcher + zeros(8192) + metadata + zeros(pad8(idx.metadata_offset + idx.metadata_size))
        + table_bytes(placed_descs, n as int) + payload_area(payloads, self_ref, idx.slot_table_offset + 64 * n, n as int)
        + package_emoji() + index_bytes(idx) + magic_wand()
    &&& forall|i: int| 0 <= i < n && !self_ref[i] ==> (#[trigger] placed_descs[i]).offset == payload_offset(
        payloads, self_ref, idx.slot_table_offset + 64 * n, i)
    &&& placed_descs.len() == n
    &&& forall|i: int|
        0 <= i < n ==> region(
            d,
            idx.slot_table_offset + 64 * i,
            descriptor_bytes(#[trigger] placed_descs[i]),
        )
    &&& forall|i: int|
        0 <= i < n ==> (if self_ref[i] {
            #[trigger] placed_descs[i] == placed(descriptors[i], 0, 0)
        } else {
            &&& placed_descs[i] == placed(
                descriptors[i],
                placed_descs[i].offset,
                payloads[i]@.len() as u64,
            )
            &&& placed_descs[i].offset % 8 == 0
            &&& placed_descs[i].offset >= idx.slot_table_offset + idx.slot_table_size
            &&& placed_descs[i].offset + placed_descs[i].size <= idx.package_size - 8200
            &&& region(d, placed_descs[i].offset as int, payloads[i]@)
        })
    &&& idx == (Index {
        package_size: idx.package_size,
        launcher_size: idx.launcher_size,
        metadata_offset: idx.metadata_offset,
        metadata_size: idx.metadata_size,
        slot_table_offset: idx.slot_table_offset,
        slot_table_size: idx.slot_table_size,
        slot_count: idx.slot_count,
        index_checksum: idx.index_checksum,
        ..base
    })
    &&& crate::index::checksum_holds(index_bytes(idx))
    &&& d.subrange(d.len() - 8200, d.len() as int) == package_emoji() + index_bytes(idx)
        + magic_wand()
}

/// Lay a package out: the launcher, 8192 reserved bytes, the compressed
/// metadata, the slot table (8-aligned), each payload (8-aligned) and the
/// magic trailer, whose index records where each region went.
#[verifier::rlimit(100)]
pub fn assemble_package(
    launcher: &[u8],
    metadata: &[u8],
    payloads: &Vec<Vec<u8>>,
    descriptors: &Vec<SlotDescriptor>,
    self_ref: &Vec<bool>,
    base: Index,
) -> (r: BuiltPackage)
    requires
        payloads@.len() == descriptors@.len(),
        self_ref@.len() == descriptors@.len(),
        descriptors@.len() <= u32::MAX,
        launcher@.len() + 8192 + metadata@.len() + 7 + 64 * descriptors@.len() + payload_budget(
            payloads@,
            payloads@.len() as int,
        ) + 8200 <= usize::MAX,
    ensures
        package_layout(
            launcher@,
            metadata@,
            payloads@,
            descriptors@,
            self_ref@,
            base,
            r.bytes@,
            r.index,
            r.descriptors@,
        ),
{
    let n = descriptors.len();
    proof {
        lemma_budget_mono(payloads@, 0, n as int);
    }
    let mut head: Vec<u8> = Vec::new();
    append_bytes(&mut head, launcher);
    append_zeros(&mut head, HEADER_SIZE);
    let metadata_offset = head.len();
    append_bytes(&mut head, metadata);
    let meta_end = head.len();
    assert(meta_end == launcher@.len() + 8192 + metadata@.len());
    assert(meta_end + 7 <= usize::MAX);
    let table_offset = align_offset(meta_end as u64, 8) as usize;
    append_zeros(&mut head, table_offset - meta_end);
    proof {
        assert(head@.subrange(0, launcher@.len() as int) =~= launcher@);
        assert(head@.subrange(metadata_offset as int, metadata_offset + metadata@.len())
            =~= metadata@);
    }
    let tail_base = table_offset + 64 * n;
    let mut tail: Vec<u8> = Vec::new();
    let mut placed_descs: Vec<SlotDescriptor> = Vec::new();
    let mut i: usize = 0;
    while i < n
        invariant
            n == descriptors@.len(),
            payloads@.len() == n,
            self_ref@.len() == n,
            i <= n,
            tail_base == table_offset + 64 * n,
            table_offset % 8 == 0,
            tail_base + payload_budget(payloads@, n as int) + 8200 <= usize::MAX,
            tail@.len() <= payload_budget(payloads@, i as int),
            tail@ == payload_area(payloads@, self_ref@, tail_base as int, i as int),
            forall|k: int| 0 <= k < i && !self_ref@[k] ==> (#[trigger] placed_descs@[k]).offset == payload_offset(
                payloads@, self_ref@, tail_base as int, k),
            placed_descs@.len() == i,
            forall|k: int|
                0 <= k < i ==> (if self_ref@[k] {
                    #[trigger] placed_descs@[k] == placed(descriptors@[k], 0, 0)
                } else {
                    &&& placed_descs@[k] == placed(
                        descriptors@[k],
                        placed_descs@[k].offset,
                        payloads@[k]@.len() as u64,
                    )
                    &&& placed_descs@[k].offset % 8 == 0
                    &&& placed_descs@[k].offset >= tail_base
                    &&& placed_descs@[k].offset + placed_descs@[k].size <= tail_base + tail@.len()
                    &&& region(tail@, placed_descs@[k].offset - tail_base, payloads@[k]@)
                }),
        decreases n - i,
    {
        proof {
            lemma_budget_mono(payloads@, i + 1, n as int);
        }
        if self_ref[i] {
            placed_descs.push(SlotDescriptor { offset: 0, size: 0, ..descriptors[i] });
            assert(tail@ == payload_area(payloads@, self_ref@, tail_base as int, i + 1));
        } else {
            let pos = (tail_base + tail.len()) as u64;
            let off = align_offset(pos, 8);
            let ghost before = tail@;
            append_zeros(&mut tail, (off - pos) as usize);
            let ghost padded = tail@;
            append_bytes(&mut tail, payloads[i].as_slice());
            assert(tail@ =~= payload_area(payloads@, self_ref@, tail_base as int, i + 1));
            proof {
                assert forall|k: int| 0 <= k < i && !self_ref@[k] implies region(
                    tail@,
                    placed_descs@[k].offset - tail_base,
                    payloads@[k]@,
                ) by {
                    lemma_region_left(before, Seq::new((off - pos) as nat, |j: int| 0u8), placed_descs@[k].offset - tail_base, payloads@[k]@);
                    lemma_region_left(padded, payloads@[i as int]@, placed_descs@[k].offset - tail_base, payloads@[k]@);
                }
                assert(payloads@[i as int]@.subrange(0, payloads@[i as int]@.len() as int) =~= payloads@[i as int]@);
                lemma_region_right(padded, payloads@[i as int]@, 0, payloads@[i as int]@);
            }
            placed_descs.push(
                SlotDescriptor { offset: off, size: payloads[i].len() as u64, ..descriptors[i] },
            );
        }
        i = i + 1;
    }
    let mut table: Vec<u8> = Vec::new();
    let mut j: usize = 0;
    while j < n
        invariant
            j <= n,
            placed_descs@.len() == n,
            table@.len() == 64 * j,
            table@ == table_bytes(placed_descs@, j as int),
            forall|k: int|
                0 <= k < j ==> region(table@, 64 * k, descriptor_bytes(#[trigger] placed_descs@[k])),
        decreases n - j,
    {
        let rec = placed_descs[j].pack();
        let ghost before = table@;
        append_bytes(&mut table, rec.as_slice());
        proof {
            crate::slots::lemma_descriptor_round_trip(placed_descs@[j as int], placed_descs@[j as int]);
            assert forall|k: int| 0 <= k < j implies region(table@, 64 * k, descriptor_bytes(#[trigger] placed_descs@[k])) by {
                lemma_region_left(before, rec@, 64 * k, descriptor_bytes(placed_descs@[k]));
            }
            assert(rec@.subrange(0, 64) =~= rec@);
            lemma_region_right(before, rec@, 0, rec@);
        }
        j = j + 1;
    }
    let end = tail_base + tail.len();
    let mut idx = base;
    idx.package_size = (end + MAGIC_TRAILER_SIZE) as u64;
    idx.launcher_size = launcher.len() as u64;
    idx.metadata_offset = metadata_offset as u64;
    idx.metadata_size = metadata.len() as u64;
    idx.slot_table_offset = table_offset as u64;
    idx.slot_table_size = (64 * n) as u64;
    idx.slot_count = n as u32;
    let ghost idx0 = idx;
    let packed = idx.pack();
    idx.index_checksum = crate::codec::read_u32(packed.as_slice(), 4);
    proof {
        crate::index::lemma_index_bytes_len(idx0);
        vstd::bytes::lemma_auto_spec_u32_to_from_le_bytes();
        assert(packed@.subrange(4, 8) =~= vstd::bytes::spec_u32_to_le_bytes(
            crate::index::block_checksum(index_bytes(idx0)),
        ));
        crate::index::lemma_store_checksum(idx0, idx);
    }
    let ghost table0 = table@;
    let ghost tail0 = tail@;
    let mut bytes = head;
    let ghost h = bytes@;
    bytes.append(&mut table);
    let ghost ht = bytes@;
    bytes.append(&mut tail);
    let ghost htt = bytes@;
    bytes.push(PACKAGE_EMOJI_0);
    bytes.push(PACKAGE_EMOJI_1);
    bytes.push(PACKAGE_EMOJI_2);
    bytes.push(PACKAGE_EMOJI_3);
    append_bytes(&mut bytes, packed.as_slice());
    bytes.push(MAGIC_WAND_0);
    bytes.push(MAGIC_WAND_1);
    bytes.push(MAGIC_WAND_2);
    bytes.push(MAGIC_WAND_3);
    proof {
        let trailer = package_emoji() + index_bytes(idx) + magic_wand();
        assert(bytes@ =~= htt + trailer);
        assert(h =~= launcher@ + zeros(8192) + metadata@ + zeros(pad8(idx.metadata_offset + idx.metadata_size)));
        assert(table0 == table_bytes(placed_descs@, n as int));
        assert(tail0 == payload_area(payloads@, self_ref@, idx.slot_table_offset + 64 * n, n as int));
        assert(bytes@ =~= launcher@ + zeros(8192) + metadata@ + zeros(pad8(idx.metadata_offset + idx.metadata_size))
            + table_bytes(placed_descs@, n as int) + payload_area(payloads@, self_ref@, idx.slot_table_offset + 64 * n, n as int)
            + package_emoji() + index_bytes(idx) + magic_wand());
        assert(bytes@.subrange(bytes@.len() - 8200, bytes@.len() as int) =~= trailer);
        assert(h.len() == table_offset);
        assert(ht.len() == tail_base);
        lemma_region_left(h, table0, 0, launcher@);
        lemma_region_left(ht, tail0, 0, launcher@);
        lemma_region_left(htt, trailer, 0, launcher@);
        lemma_region_left(h, table0, metadata_offset as int, metadata@);
        lemma_region_left(ht, tail0, metadata_offset as int, metadata@);
        lemma_region_left(htt, trailer, metadata_offset as int, metadata@);
        assert forall|k: int| 0 <= k < n implies region(
            bytes@,
            table_offset + 64 * k,
            descriptor_bytes(#[trigger] placed_descs@[k]),
        ) by {
            lemma_region_right(h, table0, 64 * k, descriptor_bytes(placed_descs@[k]));
            lemma_region_left(ht, tail0, table_offset + 64 * k, descriptor_bytes(placed_descs@[k]));
            lemma_region_left(htt, trailer, table_offset + 64 * k, descriptor_bytes(placed_descs@[k]));
        }
        assert forall|k: int| 0 <= k < n && !self_ref@[k] implies region(
            bytes@,
            (#[trigger] placed_descs@[k]).offset as int,
            payloads@[k]@,
        ) by {
            let o = placed_descs@[k].offset - tail_base;
            lemma_region_right(ht, tail0, o, payloads@[k]@);
            lemma_region_left(htt, trailer, placed_descs@[k].offset as int, payloads@[k]@);
        }
    }
    BuiltPackage { bytes, index: idx, descriptors: placed_descs }
}

} // verus!

verus! {

/// Every package laid out by `assemble_package` ends in the magic trailer:
/// the closing sentinel in its last four bytes, the opening sentinel 8200
/// bytes from its end, and between them its index block, whose stored
/// checksum is correct.
pub proof fn lemma_layout_trailer(
    launcher: Seq<u8>,
    metadata: Seq<u8>,
    payloads: Seq<Vec<u8>>,
    descriptors: Seq<SlotDescriptor>,
    self_ref: Seq<bool>,
    base: Index,
    d: Seq<u8>,
    idx: Index,
    placed_descs: Seq<SlotDescriptor>,
)
    requires
        package_layout(launcher, metadata, payloads, descriptors, self_ref, base, d, idx, placed_descs),
    ensures
        trailer_ok(d),
        d.subrange(d.len() - 4, d.len() as int) == magic_wand(),
        d.subrange(d.len() - 8200, d.len() - 8196) == package_emoji(),
        trailer_index(d) == index_bytes(idx),
        crate::index::checksum_holds(trailer_index(d)),
{
    crate::index::lemma_index_bytes_len(idx);
    let t = d.subrange(d.len() - 8200, d.len() as int);
    assert(d.subrange(d.len() - 8200, d.len() - 8196) =~= t.subrange(0, 4));
    assert(t.subrange(0, 4) =~= package_emoji());
    assert(d.subrange(d.len() - 4, d.len() as int) =~= t.subrange(8196, 8200));
    assert(t.subrange(8196, 8200) =~= magic_wand());
    assert(trailer_index(d) =~= t.subrange(4, 8196));
    assert(t.subrange(4, 8196) =~= index_bytes(idx));
}

/// With an empty launcher the reserved index area starts the file, and the
/// metadata follows it at offset 8192.
pub proof fn lemma_layout_empty_launcher(
    launcher: Seq<u8>,
    metadata: Seq<u8>,
    payloads: Seq<Vec<u8>>,
    descriptors: Seq<SlotDescriptor>,
    self_ref: Seq<bool>,
    base: Index,
    d: Seq<u8>,
    idx: Index,
    placed_descs: Seq<SlotDescriptor>,
)
    requires
        package_layout(launcher, metadata, payloads, descriptors, self_ref, base, d, idx, placed_descs),
        launcher.len() == 0,
    ensures
        idx.launcher_size == 0,
        idx.metadata_offset == 8192,
        idx.metadata_offset >= 8192,
{
}

/// A package without slots has an empty slot table.
pub proof fn lemma_layout_no_slots(
    launcher: Seq<u8>,
    metadata: Seq<u8>,
    payloads: Seq<Vec<u8>>,
    descriptors: Seq<SlotDescriptor>,
    self_ref: Seq<bool>,
    base: Index,
    d: Seq<u8>,
    idx: Index,
    placed_descs: Seq<SlotDescriptor>,
)
    requires
        package_layout(launcher, metadata, payloads, descriptors, self_ref, base, d, idx, placed_descs),
        descriptors.len() == 0,
    ensures
        idx.slot_count == 0,
        idx.slot_table_size == 0,
        placed_descs.len() == 0,
{
}

} // verus!

verus! {

/// Laying out the same launcher, metadata, payloads and descriptors over the
/// same base index always gives the same bytes, index and slot table.
pub proof fn lemma_layout_deterministic(
    launcher: Seq<u8>,
    metadata: Seq<u8>,
    payloads: Seq<Vec<u8>>,
    descriptors: Seq<SlotDescriptor>,
    self_ref: Seq<bool>,
    base: Index,
    d1: Seq<u8>,
    idx1: Index,
    placed1: Seq<SlotDescriptor>,
    d2: Seq<u8>,
    idx2: Index,
    placed2: Seq<SlotDescriptor>,
)
    requires
        package_layout(launcher, metadata, payloads, descriptors, self_ref, base, d1, idx1, placed1),
        package_layout(launcher, metadata, payloads, descriptors, self_ref, base, d2, idx2, placed2),
    ensures
        d1 == d2,
        idx1 == idx2,
        placed1 == placed2,
{
    let n = descriptors.len();
    assert forall|i: int| 0 <= i < n implies placed1[i] == placed2[i] by {
        if !self_ref[i] {
            assert(placed1[i].offset == placed2[i].offset);
        }
    }
    assert(placed1 =~= placed2);
    crate::index::lemma_index_bytes_len(idx1);
    crate::index::lemma_index_bytes_len(idx2);
    assert(idx1.package_size == idx2.package_size);
    assert(crate::index::index_tail(idx1) == crate::index::index_tail(idx2));
    crate::index::lemma_block_checksum_ignores_field(idx1, idx2);
    crate::index::lemma_checksum_of_stored(idx1);
    crate::index::lemma_checksum_of_stored(idx2);
    assert(idx1 == idx2);
}

} // verus!
