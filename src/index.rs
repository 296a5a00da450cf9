//! The 8192-byte index block: every offset and integrity field of a package.
use crate::codec::{adler32, adler32_of, append_bytes, append_u32, append_u64, read_array, read_u32, read_u64};
use crate::constants::{HEADER_SIZE, PSPF_VERSION};
use crate::error::FlavorError;
use vstd::bytes::*;
use vstd::prelude::*;

verus! {

/// The index block, field by field, in on-disk order.
#[derive(Clone, Debug)]
pub struct Index {
    pub format_version: u32,
    pub index_checksum: u32,
    pub package_size: u64,
    pub launcher_size: u64,
    pub metadata_offset: u64,
    pub metadata_size: u64,
    pub slot_table_offset: u64,
    pub slot_table_size: u64,
    pub slot_count: u32,
    pub flags: u32,
    pub public_key: [u8; 32],
    pub metadata_checksum: [u8; 32],
    pub integrity_signature: [u8; 512],
    pub access_mode: u8,
    pub cache_strategy: u8,
    pub encryption_type: u8,
    pub reserved_hint: u8,
    pub page_size: u32,
    pub max_memory: u64,
    pub min_memory: u64,
    pub cpu_features: u64,
    pub gpu_requirements: u64,
    pub numa_hints: u64,
    pub stream_chunk_size: u32,
    pub padding1: [u8; 12],
    pub build_timestamp: u64,
    pub build_machine: [u8; 32],
    pub source_hash: [u8; 32],
    pub dependency_hash: [u8; 32],
    pub license_id: [u8; 16],
    pub provenance_uri: [u8; 8],
    pub capabilities: u64,
    pub requirements: u64,
    pub extensions: u64,
    pub compatibility: u32,
    pub protocol_version: u32,
    pub future_crypto: [u8; 512],
    pub reserved: [u8; 6816],
}

/// The 8192 bytes that hold `idx`, its stored checksum included.
pub open spec fn index_bytes(idx: Index) -> Seq<u8> {
    spec_u32_to_le_bytes(idx.format_version) + spec_u32_to_le_bytes(idx.index_checksum)
        + index_tail(idx)
}

/// Bytes 8..8192 of an index block: every field after the checksum.
pub open spec fn index_tail(idx: Index) -> Seq<u8> {
    spec_u64_to_le_bytes(idx.package_size) + spec_u64_to_le_bytes(idx.launcher_size)
        + spec_u64_to_le_bytes(idx.metadata_offset) + spec_u64_to_le_bytes(idx.metadata_size)
        + spec_u64_to_le_bytes(idx.slot_table_offset) + spec_u64_to_le_bytes(
        idx.slot_table_size,
    ) + spec_u32_to_le_bytes(idx.slot_count) + spec_u32_to_le_bytes(idx.flags)
        + idx.public_key@ + idx.metadata_checksum@ + idx.integrity_signature@ + seq![
        idx.access_mode,
        idx.cache_strategy,
        idx.encryption_type,
        idx.reserved_hint,
    ] + spec_u32_to_le_bytes(idx.page_size) + spec_u64_to_le_bytes(idx.max_memory)
        + spec_u64_to_le_bytes(idx.min_memory) + spec_u64_to_le_bytes(idx.cpu_features)
        + spec_u64_to_le_bytes(idx.gpu_requirements) + spec_u64_to_le_bytes(idx.numa_hints)
        + spec_u32_to_le_bytes(idx.stream_chunk_size) + idx.padding1@ + spec_u64_to_le_bytes(
        idx.build_timestamp,
    ) + idx.build_machine@ + idx.source_hash@ + idx.dependency_hash@ + idx.license_id@
        + idx.provenance_uri@ + spec_u64_to_le_bytes(idx.capabilities) + spec_u64_to_le_bytes(
        idx.requirements,
    ) + spec_u64_to_le_bytes(idx.extensions) + spec_u32_to_le_bytes(idx.compatibility)
        + spec_u32_to_le_bytes(idx.protocol_version) + idx.future_crypto@ + idx.reserved@
}

/// `b` with its checksum field (bytes 4..8) set to zero.
pub open spec fn zero_checksum_field(b: Seq<u8>) -> Seq<u8> {
    b.subrange(0, 4) + seq![0u8, 0u8, 0u8, 0u8] + b.subrange(8, b.len() as int)
}

/// The checksum that an index block must carry: Adler-32 of the block with
/// its checksum field zeroed.
pub open spec fn block_checksum(b: Seq<u8>) -> u32 {
    adler32_of(zero_checksum_field(b))
}

/// `b` with its checksum field recomputed.
pub open spec fn with_checksum(b: Seq<u8>) -> Seq<u8> {
    b.subrange(0, 4) + spec_u32_to_le_bytes(block_checksum(b)) + b.subrange(8, b.len() as int)
}

/// An index block whose stored checksum is the one it must carry.
pub open spec fn checksum_holds(b: Seq<u8>) -> bool {
    b.len() == HEADER_SIZE && spec_u32_from_le_bytes(b.subrange(4, 8)) == block_checksum(b)
}

pub proof fn lemma_index_bytes_len(idx: Index)
    ensures
        index_bytes(idx).len() == HEADER_SIZE,
{
    lemma_auto_spec_u32_to_from_le_bytes();
    lemma_auto_spec_u64_to_from_le_bytes();
}

impl Index {
    /// A fresh index: current format version, page size 4096, everything else zero.
    pub fn new() -> (r: Index)
        ensures
            r.format_version == PSPF_VERSION,
            r.compatibility == PSPF_VERSION,
            r.protocol_version == 1,
            r.page_size == 4096,
            r.index_checksum == 0 && r.package_size == 0 && r.launcher_size == 0,
            r.metadata_offset == 0 && r.metadata_size == 0,
            r.slot_table_offset == 0 && r.slot_table_size == 0,
            r.slot_count == 0 && r.flags == 0,
            r.access_mode == 0 && r.cache_strategy == 0 && r.encryption_type == 0 && r.reserved_hint == 0,
            r.max_memory == 0 && r.min_memory == 0 && r.cpu_features == 0,
            r.gpu_requirements == 0 && r.numa_hints == 0 && r.stream_chunk_size == 0,
            r.build_timestamp == 0,
            r.capabilities == 0 && r.requirements == 0 && r.extensions == 0,
            r.public_key@ == Seq::new(32, |i: int| 0u8),
            r.metadata_checksum@ == Seq::new(32, |i: int| 0u8),
            r.integrity_signature@ == Seq::new(512, |i: int| 0u8),
            r.padding1@ == Seq::new(12, |i: int| 0u8),
            r.build_machine@ == Seq::new(32, |i: int| 0u8),
            r.source_hash@ == Seq::new(32, |i: int| 0u8),
            r.dependency_hash@ == Seq::new(32, |i: int| 0u8),
            r.license_id@ == Seq::new(16, |i: int| 0u8),
            r.provenance_uri@ == Seq::new(8, |i: int| 0u8),
            r.future_crypto@ == Seq::new(512, |i: int| 0u8),
            r.reserved@ == Seq::new(6816, |i: int| 0u8),
    {
        let r = Index {
            format_version: PSPF_VERSION,
            index_checksum: 0,
            package_size: 0,
            launcher_size: 0,
            metadata_offset: 0,
            metadata_size: 0,
            slot_table_offset: 0,
            slot_table_size: 0,
            slot_count: 0,
            flags: 0,
            public_key: [0; 32],
            metadata_checksum: [0; 32],
            integrity_signature: [0; 512],
            access_mode: 0,
            cache_strategy: 0,
            encryption_type: 0,
            reserved_hint: 0,
            page_size: 4096,
            max_memory: 0,
            min_memory: 0,
            cpu_features: 0,
            gpu_requirements: 0,
            numa_hints: 0,
            stream_chunk_size: 0,
            padding1: [0; 12],
            build_timestamp: 0,
            build_machine: [0; 32],
            source_hash: [0; 32],
            dependency_hash: [0; 32],
            license_id: [0; 16],
            provenance_uri: [0; 8],
            capabilities: 0,
            requirements: 0,
            extensions: 0,
            compatibility: PSPF_VERSION,
            protocol_version: 1,
            future_crypto: [0; 512],
            reserved: [0; 6816],
        };
        assert(r.public_key@ =~= Seq::new(32, |i: int| 0u8));
        assert(r.metadata_checksum@ =~= Seq::new(32, |i: int| 0u8));
        assert(r.integrity_signature@ =~= Seq::new(512, |i: int| 0u8));
        assert(r.reserved@ =~= Seq::new(6816, |i: int| 0u8));
        assert(r.padding1@ =~= Seq::new(12, |i: int| 0u8));
        assert(r.build_machine@ =~= Seq::new(32, |i: int| 0u8));
        assert(r.source_hash@ =~= Seq::new(32, |i: int| 0u8));
        assert(r.dependency_hash@ =~= Seq::new(32, |i: int| 0u8));
        assert(r.license_id@ =~= Seq::new(16, |i: int| 0u8));
        assert(r.provenance_uri@ =~= Seq::new(8, |i: int| 0u8));
        assert(r.future_crypto@ =~= Seq::new(512, |i: int| 0u8));
        r
    }

    /// Parse an index block. Fails on anything but exactly 8192 bytes; every
    /// 8192-byte block parses, to the one index whose bytes it is.
    pub fn unpack(data: &[u8]) -> (r: Result<Index, FlavorError>)
        ensures
            data@.len() != HEADER_SIZE <==> r is Err,
            r is Err ==> r == Err::<Index, FlavorError>(FlavorError::InvalidSize),
            r is Ok ==> index_bytes(r->Ok_0) == data@,
    {
        if data.len() != HEADER_SIZE {
            return Err(FlavorError::InvalidSize);
        }
        let ghost d = data@;
        let format_version = read_u32(data, 0);
        let index_checksum = read_u32(data, 4);
        let package_size = read_u64(data, 8);
        let launcher_size = read_u64(data, 16);
        let metadata_offset = read_u64(data, 24);
        let metadata_size = read_u64(data, 32);
        let slot_table_offset = read_u64(data, 40);
        let slot_table_size = read_u64(data, 48);
        let slot_count = read_u32(data, 56);
        let flags = read_u32(data, 60);
        let public_key: [u8; 32] = read_array(data, 64);
        let metadata_checksum: [u8; 32] = read_array(data, 96);
        let integrity_signature: [u8; 512] = read_array(data, 128);
        let access_mode = data[640];
        let cache_strategy = data[641];
        let encryption_type = data[642];
        let reserved_hint = data[643];
        let page_size = read_u32(data, 644);
        let max_memory = read_u64(data, 648);
        let min_memory = read_u64(data, 656);
        let cpu_features = read_u64(data, 664);
        let gpu_requirements = read_u64(data, 672);
        let numa_hints = read_u64(data, 680);
        let stream_chunk_size = read_u32(data, 688);
        let padding1: [u8; 12] = read_array(data, 692);
        let build_timestamp = read_u64(data, 704);
        let build_machine: [u8; 32] = read_array(data, 712);
        let source_hash: [u8; 32] = read_array(data, 744);
        let dependency_hash: [u8; 32] = read_array(data, 776);
        let license_id: [u8; 16] = read_array(data, 808);
        let provenance_uri: [u8; 8] = read_array(data, 824);
        let capabilities = read_u64(data, 832);
        let requirements = read_u64(data, 840);
        let extensions = read_u64(data, 848);
        let compatibility = read_u32(data, 856);
        let protocol_version = read_u32(data, 860);
        let future_crypto: [u8; 512] = read_array(data, 864);
        let reserved: [u8; 6816] = read_array(data, 1376);
        let idx = Index {
            format_version,
            index_checksum,
            package_size,
            launcher_size,
            metadata_offset,
            metadata_size,
            slot_table_offset,
            slot_table_size,
            slot_count,
            flags,
            public_key,
            metadata_checksum,
            integrity_signature,
            access_mode,
            cache_strategy,
            encryption_type,
            reserved_hint,
            page_size,
            max_memory,
            min_memory,
            cpu_features,
            gpu_requirements,
            numa_hints,
            stream_chunk_size,
            padding1,
            build_timestamp,
            build_machine,
            source_hash,
            dependency_hash,
            license_id,
            provenance_uri,
            capabilities,
            requirements,
            extensions,
            compatibility,
            protocol_version,
            future_crypto,
            reserved,
        };
        proof {
            assert(seq![access_mode, cache_strategy, encryption_type, reserved_hint]
                =~= d.subrange(640, 644));
            lemma_concat_ranges(d);
        }
        Ok(idx)
    }

    /// The 8192 bytes of this index, with the checksum field recomputed.
    pub fn pack(&self) -> (r: Vec<u8>)
        ensures
            r@ == with_checksum(index_bytes(*self)),
            r@.len() == HEADER_SIZE,
    {
        let mut bytes: Vec<u8> = Vec::new();
        append_u32(&mut bytes, self.format_version);
        append_u32(&mut bytes, self.index_checksum);
        let mut t: Vec<u8> = Vec::new();
        append_u64(&mut t, self.package_size);
        append_u64(&mut t, self.launcher_size);
        append_u64(&mut t, self.metadata_offset);
        append_u64(&mut t, self.metadata_size);
        append_u64(&mut t, self.slot_table_offset);
        append_u64(&mut t, self.slot_table_size);
        append_u32(&mut t, self.slot_count);
        append_u32(&mut t, self.flags);
        append_bytes(&mut t, self.public_key.as_slice());
        append_bytes(&mut t, self.metadata_checksum.as_slice());
        append_bytes(&mut t, self.integrity_signature.as_slice());
        t.push(self.access_mode);
        t.push(self.cache_strategy);
        t.push(self.encryption_type);
        t.push(self.reserved_hint);
        append_u32(&mut t, self.page_size);
        append_u64(&mut t, self.max_memory);
        append_u64(&mut t, self.min_memory);
        append_u64(&mut t, self.cpu_features);
        append_u64(&mut t, self.gpu_requirements);
        append_u64(&mut t, self.numa_hints);
        append_u32(&mut t, self.stream_chunk_size);
        append_bytes(&mut t, self.padding1.as_slice());
        append_u64(&mut t, self.build_timestamp);
        append_bytes(&mut t, self.build_machine.as_slice());
        append_bytes(&mut t, self.source_hash.as_slice());
        append_bytes(&mut t, self.dependency_hash.as_slice());
        append_bytes(&mut t, self.license_id.as_slice());
        append_bytes(&mut t, self.provenance_uri.as_slice());
        append_u64(&mut t, self.capabilities);
        append_u64(&mut t, self.requirements);
        append_u64(&mut t, self.extensions);
        append_u32(&mut t, self.compatibility);
        append_u32(&mut t, self.protocol_version);
        append_bytes(&mut t, self.future_crypto.as_slice());
        append_bytes(&mut t, self.reserved.as_slice());
        assert(t@ == index_tail(*self));
        bytes.append(&mut t);
        proof {
            lemma_index_bytes_len(*self);
            assert(bytes@ =~= index_bytes(*self));
        }
        set_checksum_field(&mut bytes);
        bytes
    }

    /// Whether `raw_data` is an 8192-byte block whose Adler-32 (checksum field
    /// zeroed) equals this index's stored checksum.
    pub fn verify_checksum_raw(&self, raw_data: &[u8]) -> (r: bool)
        ensures
            r == (raw_data@.len() == HEADER_SIZE && block_checksum(raw_data@)
                == self.index_checksum),
    {
        if raw_data.len() != HEADER_SIZE {
            return false;
        }
        let zeroed = zeroed_copy(raw_data);
        let calculated = adler32(zeroed.as_slice());
        calculated == self.index_checksum
    }

    /// Whether the stored checksum matches this index's own packed bytes.
    pub fn verify_checksum(&self) -> (r: bool)
        ensures
            r == (block_checksum(index_bytes(*self)) == self.index_checksum),
    {
        let bytes = self.pack();
        proof {
            lemma_index_bytes_len(*self);
            lemma_auto_spec_u32_to_from_le_bytes();
            let b = index_bytes(*self);
            assert(bytes@.subrange(0, 4) =~= b.subrange(0, 4));
            assert(bytes@.subrange(8, 8192) =~= b.subrange(8, 8192));
            lemma_zero_ignores_field(b, bytes@);
        }
        let zeroed = zeroed_copy(bytes.as_slice());
        let calculated = adler32(zeroed.as_slice());
        calculated == self.index_checksum
    }
}

impl Default for Index {
    fn default() -> (r: Index)
        ensures
            r.format_version == PSPF_VERSION,
            r.page_size == 4096,
    {
        Index::new()
    }
}

/// Two blocks that differ at most in the checksum field zero to the same bytes.
proof fn lemma_zero_ignores_field(a: Seq<u8>, b: Seq<u8>)
    requires
        a.len() == HEADER_SIZE,
        b.len() == HEADER_SIZE,
        a.subrange(0, 4) == b.subrange(0, 4),
        a.subrange(8, 8192) == b.subrange(8, 8192),
    ensures
        zero_checksum_field(a) == zero_checksum_field(b),
{
}

/// A copy of an 8192-byte block with its checksum field zeroed.
fn zeroed_copy(raw: &[u8]) -> (r: Vec<u8>)
    requires
        raw@.len() == HEADER_SIZE,
    ensures
        r@ == zero_checksum_field(raw@),
{
    let mut r: Vec<u8> = Vec::new();
    append_bytes(&mut r, raw);
    r.set(4, 0);
    r.set(5, 0);
    r.set(6, 0);
    r.set(7, 0);
    assert(r@ =~= zero_checksum_field(raw@));
    r
}

/// Store the block's Adler-32 (computed with the field zeroed) in bytes 4..8.
fn set_checksum_field(bytes: &mut Vec<u8>)
    requires
        old(bytes)@.len() == HEADER_SIZE,
    ensures
        final(bytes)@ == with_checksum(old(bytes)@),
        final(bytes)@.len() == HEADER_SIZE,
{
    let zeroed = zeroed_copy(bytes.as_slice());
    let checksum = adler32(zeroed.as_slice());
    let le = vstd::bytes::u32_to_le_bytes(checksum);
    bytes.set(4, le[0]);
    bytes.set(5, le[1]);
    bytes.set(6, le[2]);
    bytes.set(7, le[3]);
    assert(bytes@ =~= with_checksum(old(bytes)@));
}

/// The fields read from their ranges, concatenated in order, give back the block.
proof fn lemma_concat_ranges(d: Seq<u8>)
    requires
        d.len() == HEADER_SIZE,
    ensures
        d == d.subrange(0, 4) + d.subrange(4, 8) + d.subrange(8, 8192),
        d.subrange(8, 8192) == d.subrange(8, 16) + d.subrange(16, 24) + d.subrange(24, 32) + d.subrange(32, 40) + d.subrange(40, 48) + d.subrange(48, 56) + d.subrange(56, 60) + d.subrange(60, 64) + d.subrange(64, 96) + d.subrange(96, 128) + d.subrange(128, 640) + d.subrange(640, 644) + d.subrange(644, 648) + d.subrange(648, 656) + d.subrange(656, 664) + d.subrange(664, 672) + d.subrange(672, 680) + d.subrange(680, 688) + d.subrange(688, 692) + d.subrange(692, 704) + d.subrange(704, 712) + d.subrange(712, 744) + d.subrange(744, 776) + d.subrange(776, 808) + d.subrange(808, 824) + d.subrange(824, 832) + d.subrange(832, 840) + d.subrange(840, 848) + d.subrange(848, 856) + d.subrange(856, 860) + d.subrange(860, 864) + d.subrange(864, 1376) + d.subrange(1376, 8192),
{
    assert(d.subrange(0, 4) + d.subrange(4, 8) =~= d.subrange(0, 8));
    assert(d.subrange(0, 8) + d.subrange(8, 16) =~= d.subrange(0, 16));
    assert(d.subrange(0, 16) + d.subrange(16, 24) =~= d.subrange(0, 24));
    assert(d.subrange(0, 24) + d.subrange(24, 32) =~= d.subrange(0, 32));
    assert(d.subrange(0, 32) + d.subrange(32, 40) =~= d.subrange(0, 40));
    assert(d.subrange(0, 40) + d.subrange(40, 48) =~= d.subrange(0, 48));
    assert(d.subrange(0, 48) + d.subrange(48, 56) =~= d.subrange(0, 56));
    assert(d.subrange(0, 56) + d.subrange(56, 60) =~= d.subrange(0, 60));
    assert(d.subrange(0, 60) + d.subrange(60, 64) =~= d.subrange(0, 64));
    assert(d.subrange(0, 64) + d.subrange(64, 96) =~= d.subrange(0, 96));
    assert(d.subrange(0, 96) + d.subrange(96, 128) =~= d.subrange(0, 128));
    assert(d.subrange(0, 128) + d.subrange(128, 640) =~= d.subrange(0, 640));
    assert(d.subrange(0, 640) + d.subrange(640, 644) =~= d.subrange(0, 644));
    assert(d.subrange(0, 644) + d.subrange(644, 648) =~= d.subrange(0, 648));
    assert(d.subrange(0, 648) + d.subrange(648, 656) =~= d.subrange(0, 656));
    assert(d.subrange(0, 656) + d.subrange(656, 664) =~= d.subrange(0, 664));
    assert(d.subrange(0, 664) + d.subrange(664, 672) =~= d.subrange(0, 672));
    assert(d.subrange(0, 672) + d.subrange(672, 680) =~= d.subrange(0, 680));
    assert(d.subrange(0, 680) + d.subrange(680, 688) =~= d.subrange(0, 688));
    assert(d.subrange(0, 688) + d.subrange(688, 692) =~= d.subrange(0, 692));
    assert(d.subrange(0, 692) + d.subrange(692, 704) =~= d.subrange(0, 704));
    assert(d.subrange(0, 704) + d.subrange(704, 712) =~= d.subrange(0, 712));
    assert(d.subrange(0, 712) + d.subrange(712, 744) =~= d.subrange(0, 744));
    assert(d.subrange(0, 744) + d.subrange(744, 776) =~= d.subrange(0, 776));
    assert(d.subrange(0, 776) + d.subrange(776, 808) =~= d.subrange(0, 808));
    assert(d.subrange(0, 808) + d.subrange(808, 824) =~= d.subrange(0, 824));
    assert(d.subrange(0, 824) + d.subrange(824, 832) =~= d.subrange(0, 832));
    assert(d.subrange(0, 832) + d.subrange(832, 840) =~= d.subrange(0, 840));
    assert(d.subrange(0, 840) + d.subrange(840, 848) =~= d.subrange(0, 848));
    assert(d.subrange(0, 848) + d.subrange(848, 856) =~= d.subrange(0, 856));
    assert(d.subrange(0, 856) + d.subrange(856, 860) =~= d.subrange(0, 860));
    assert(d.subrange(0, 860) + d.subrange(860, 864) =~= d.subrange(0, 864));
    assert(d.subrange(0, 864) + d.subrange(864, 1376) =~= d.subrange(0, 1376));
    assert(d.subrange(0, 1376) + d.subrange(1376, 8192) =~= d.subrange(0, 8192));
    assert(d.subrange(8, 16) + d.subrange(16, 24) =~= d.subrange(8, 24));
    assert(d.subrange(8, 24) + d.subrange(24, 32) =~= d.subrange(8, 32));
    assert(d.subrange(8, 32) + d.subrange(32, 40) =~= d.subrange(8, 40));
    assert(d.subrange(8, 40) + d.subrange(40, 48) =~= d.subrange(8, 48));
    assert(d.subrange(8, 48) + d.subrange(48, 56) =~= d.subrange(8, 56));
    assert(d.subrange(8, 56) + d.subrange(56, 60) =~= d.subrange(8, 60));
    assert(d.subrange(8, 60) + d.subrange(60, 64) =~= d.subrange(8, 64));
    assert(d.subrange(8, 64) + d.subrange(64, 96) =~= d.subrange(8, 96));
    assert(d.subrange(8, 96) + d.subrange(96, 128) =~= d.subrange(8, 128));
    assert(d.subrange(8, 128) + d.subrange(128, 640) =~= d.subrange(8, 640));
    assert(d.subrange(8, 640) + d.subrange(640, 644) =~= d.subrange(8, 644));
    assert(d.subrange(8, 644) + d.subrange(644, 648) =~= d.subrange(8, 648));
    assert(d.subrange(8, 648) + d.subrange(648, 656) =~= d.subrange(8, 656));
    assert(d.subrange(8, 656) + d.subrange(656, 664) =~= d.subrange(8, 664));
    assert(d.subrange(8, 664) + d.subrange(664, 672) =~= d.subrange(8, 672));
    assert(d.subrange(8, 672) + d.subrange(672, 680) =~= d.subrange(8, 680));
    assert(d.subrange(8, 680) + d.subrange(680, 688) =~= d.subrange(8, 688));
    assert(d.subrange(8, 688) + d.subrange(688, 692) =~= d.subrange(8, 692));
    assert(d.subrange(8, 692) + d.subrange(692, 704) =~= d.subrange(8, 704));
    assert(d.subrange(8, 704) + d.subrange(704, 712) =~= d.subrange(8, 712));
    assert(d.subrange(8, 712) + d.subrange(712, 744) =~= d.subrange(8, 744));
    assert(d.subrange(8, 744) + d.subrange(744, 776) =~= d.subrange(8, 776));
    assert(d.subrange(8, 776) + d.subrange(776, 808) =~= d.subrange(8, 808));
    assert(d.subrange(8, 808) + d.subrange(808, 824) =~= d.subrange(8, 824));
    assert(d.subrange(8, 824) + d.subrange(824, 832) =~= d.subrange(8, 832));
    assert(d.subrange(8, 832) + d.subrange(832, 840) =~= d.subrange(8, 840));
    assert(d.subrange(8, 840) + d.subrange(840, 848) =~= d.subrange(8, 848));
    assert(d.subrange(8, 848) + d.subrange(848, 856) =~= d.subrange(8, 856));
    assert(d.subrange(8, 856) + d.subrange(856, 860) =~= d.subrange(8, 860));
    assert(d.subrange(8, 860) + d.subrange(860, 864) =~= d.subrange(8, 864));
    assert(d.subrange(8, 864) + d.subrange(864, 1376) =~= d.subrange(8, 1376));
    assert(d.subrange(8, 1376) + d.subrange(1376, 8192) =~= d.subrange(8, 8192));
    assert(d.subrange(0, 8192) =~= d);
    assert(d.subrange(0, 4) + d.subrange(4, 8) + d.subrange(8, 8192) =~= d);
}

} // verus!

verus! {

/// Parsing an index block and packing the parsed index again gives back the
/// block with its checksum field recomputed; for a block whose stored checksum
/// is correct (as in every valid package), that is the block byte for byte.
pub proof fn lemma_index_repack(b: Seq<u8>, idx: Index)
    requires
        b.len() == HEADER_SIZE,
        index_bytes(idx) == b,
    ensures
        with_checksum(index_bytes(idx)) == with_checksum(b),
        checksum_holds(b) ==> with_checksum(index_bytes(idx)) == b,
{
    lemma_auto_spec_u32_to_from_le_bytes();
    if checksum_holds(b) {
        assert(spec_u32_to_le_bytes(spec_u32_from_le_bytes(b.subrange(4, 8))) == b.subrange(4, 8));
        assert(b.subrange(0, 4) + b.subrange(4, 8) + b.subrange(8, b.len() as int) =~= b);
    }
}

} // verus!

verus! {

/// Storing the recomputed checksum in an index makes its bytes exactly the
/// packed block, and that block carries a correct checksum.
pub proof fn lemma_store_checksum(a: Index, b: Index)
    requires
        b == (Index { index_checksum: block_checksum(index_bytes(a)), ..a }),
    ensures
        index_bytes(b) == with_checksum(index_bytes(a)),
        block_checksum(index_bytes(b)) == block_checksum(index_bytes(a)),
        checksum_holds(index_bytes(b)),
        b.index_checksum == block_checksum(index_bytes(b)),
{
    lemma_auto_spec_u32_to_from_le_bytes();
    lemma_index_bytes_len(a);
    lemma_index_bytes_len(b);
    let x = index_bytes(a);
    let y = index_bytes(b);
    assert(index_tail(a) == index_tail(b));
    assert(x.subrange(0, 4) =~= spec_u32_to_le_bytes(a.format_version));
    assert(x.subrange(8, 8192) =~= index_tail(a));
    assert(y =~= with_checksum(x));
    assert(zero_checksum_field(y) =~= zero_checksum_field(x));
    assert(y.subrange(4, 8) =~= spec_u32_to_le_bytes(b.index_checksum));
}

} // verus!

verus! {

/// Where the fields that the integrity checks read sit in an index block.
pub proof fn lemma_index_fields(idx: Index)
    ensures
        index_bytes(idx).subrange(4, 8) == spec_u32_to_le_bytes(idx.index_checksum),
        index_bytes(idx).subrange(8, 16) == spec_u64_to_le_bytes(idx.package_size),
        index_bytes(idx).subrange(24, 32) == spec_u64_to_le_bytes(idx.metadata_offset),
        index_bytes(idx).subrange(32, 40) == spec_u64_to_le_bytes(idx.metadata_size),
        index_bytes(idx).subrange(64, 96) == idx.public_key@,
        index_bytes(idx).subrange(96, 128) == idx.metadata_checksum@,
        index_bytes(idx).subrange(128, 640) == idx.integrity_signature@,
{
    lemma_auto_spec_u32_to_from_le_bytes();
    lemma_auto_spec_u64_to_from_le_bytes();
    let b = index_bytes(idx);
    assert(b.subrange(4, 8) =~= spec_u32_to_le_bytes(idx.index_checksum));
    assert(b.subrange(8, 16) =~= spec_u64_to_le_bytes(idx.package_size));
    assert(b.subrange(24, 32) =~= spec_u64_to_le_bytes(idx.metadata_offset));
    assert(b.subrange(32, 40) =~= spec_u64_to_le_bytes(idx.metadata_size));
    assert(b.subrange(64, 96) =~= idx.public_key@);
    assert(b.subrange(96, 128) =~= idx.metadata_checksum@);
    assert(b.subrange(128, 640) =~= idx.integrity_signature@);
}

/// Two indexes with the same bytes agree on every field the integrity checks read.
pub proof fn lemma_index_fields_agree(a: Index, b: Index)
    requires
        index_bytes(a) == index_bytes(b),
    ensures
        a.index_checksum == b.index_checksum,
        a.package_size == b.package_size,
        a.metadata_offset == b.metadata_offset,
        a.metadata_size == b.metadata_size,
        a.public_key@ == b.public_key@,
        a.metadata_checksum@ == b.metadata_checksum@,
        a.integrity_signature@ == b.integrity_signature@,
{
    lemma_index_fields(a);
    lemma_index_fields(b);
    lemma_auto_spec_u32_to_from_le_bytes();
    lemma_auto_spec_u64_to_from_le_bytes();
    assert(spec_u32_from_le_bytes(spec_u32_to_le_bytes(a.index_checksum)) == a.index_checksum);
    assert(spec_u64_from_le_bytes(spec_u64_to_le_bytes(a.package_size)) == a.package_size);
    assert(spec_u64_from_le_bytes(spec_u64_to_le_bytes(a.metadata_offset)) == a.metadata_offset);
    assert(spec_u64_from_le_bytes(spec_u64_to_le_bytes(a.metadata_size)) == a.metadata_size);
}

} // verus!

verus! {

/// An index block with a correct checksum stores exactly that checksum.
pub proof fn lemma_checksum_of_stored(idx: Index)
    requires
        checksum_holds(index_bytes(idx)),
    ensures
        idx.index_checksum == block_checksum(index_bytes(idx)),
{
    lemma_index_fields(idx);
    lemma_auto_spec_u32_to_from_le_bytes();
    assert(spec_u32_from_le_bytes(spec_u32_to_le_bytes(idx.index_checksum)) == idx.index_checksum);
}

/// The checksum an index must carry does not depend on the stored one.
pub proof fn lemma_block_checksum_ignores_field(a: Index, b: Index)
    requires
        a.format_version == b.format_version,
        index_tail(a) == index_tail(b),
    ensures
        block_checksum(index_bytes(a)) == block_checksum(index_bytes(b)),
{
    lemma_auto_spec_u32_to_from_le_bytes();
    lemma_index_bytes_len(a);
    lemma_index_bytes_len(b);
    let x = index_bytes(a);
    let y = index_bytes(b);
    assert(x.subrange(0, 4) =~= y.subrange(0, 4));
    assert(x.subrange(8, 8192) =~= y.subrange(8, 8192));
    assert(zero_checksum_field(x) =~= zero_checksum_field(y));
}

} // verus!
