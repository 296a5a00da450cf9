//! Slot descriptors (64-byte records of the slot table) and slot alignment.
use crate::codec::{append_u64, read_array, read_u64, sha256, sha256_of};
use crate::constants::{CACHE_NORMAL, DEFAULT_FILE_PERMS, DEFAULT_PAGE_SIZE, SLOT_DESCRIPTOR_SIZE};
use vstd::bytes::*;
use vstd::prelude::*;
use vstd::string::*;

verus! {

/// One entry of the slot table.
#[derive(Clone, Copy, Debug)]
pub struct SlotDescriptor {
    pub id: u64,
    pub name_hash: u64,
    pub offset: u64,
    pub size: u64,
    pub original_size: u64,
    pub operations: u64,
    pub checksum: u64,
    pub purpose: u8,
    pub lifecycle: u8,
    pub priority: u8,
    pub platform: u8,
    pub reserved1: u8,
    pub reserved2: u8,
    pub permissions: u8,
    pub permissions_high: u8,
}

/// The 64 bytes that hold `d`.
pub open spec fn descriptor_bytes(d: SlotDescriptor) -> Seq<u8> {
    spec_u64_to_le_bytes(d.id) + spec_u64_to_le_bytes(d.name_hash) + spec_u64_to_le_bytes(
        d.offset,
    ) + spec_u64_to_le_bytes(d.size) + spec_u64_to_le_bytes(d.original_size)
        + spec_u64_to_le_bytes(d.operations) + spec_u64_to_le_bytes(d.checksum) + seq![
        d.purpose,
        d.lifecycle,
        d.priority,
        d.platform,
        d.reserved1,
        d.reserved2,
        d.permissions,
        d.permissions_high,
    ]
}

/// The first eight bytes of the SHA-256 of `bytes`, read little-endian.
pub open spec fn hash_prefix_u64(bytes: Seq<u8>) -> u64 {
    spec_u64_from_le_bytes(sha256_of(bytes).subrange(0, 8))
}

/// The file mode a descriptor asks for: its 16-bit permission field.
pub open spec fn descriptor_mode(d: SlotDescriptor) -> u16 {
    (d.permissions as u16) | ((d.permissions_high as u16) << 8)
}

impl SlotDescriptor {
    /// A descriptor for slot `id`: raw data, data purpose, cache lifecycle,
    /// normal priority, mode 0600.
    pub fn new(id: u64) -> (r: SlotDescriptor)
        ensures
            r.id == id,
            r.name_hash == 0 && r.offset == 0 && r.size == 0 && r.original_size == 0,
            r.operations == 0 && r.checksum == 0,
            r.purpose == 0 && r.lifecycle == 4 && r.priority == CACHE_NORMAL,
            r.platform == 0 && r.reserved1 == 0 && r.reserved2 == 0,
            r.permissions == 0x80 && r.permissions_high == 0x01,
            descriptor_mode(r) == DEFAULT_FILE_PERMS,
    {
        let r = SlotDescriptor {
            id,
            name_hash: 0,
            offset: 0,
            size: 0,
            original_size: 0,
            operations: 0,
            checksum: 0,
            purpose: 0,
            lifecycle: 4,
            priority: CACHE_NORMAL,
            platform: 0,
            reserved1: 0,
            reserved2: 0,
            permissions: 0x80,
            permissions_high: 0x01,
        };
        assert(((0x80u8 as u16) | ((0x01u8 as u16) << 8)) == 0o600u16) by (bit_vector);
        r
    }

    /// The name hash of a slot id: the first eight bytes of the SHA-256 of its
    /// UTF-8 bytes, little-endian.
    pub fn hash_name(name: &str) -> (r: u64)
        ensures
            r == hash_prefix_u64(name.spec_bytes()),
    {
        let digest = sha256(name.as_bytes());
        u64_from_le_bytes(vstd::slice::slice_subrange(digest.as_slice(), 0, 8))
    }

    /// This descriptor with the name hash of `name`.
    pub fn with_name(self, name: &str) -> (r: SlotDescriptor)
        ensures
            r == (SlotDescriptor { name_hash: hash_prefix_u64(name.spec_bytes()), ..self }),
    {
        let mut d = self;
        d.name_hash = Self::hash_name(name);
        d
    }

    /// The 64 bytes of this descriptor.
    pub fn pack(&self) -> (r: [u8; 64])
        ensures
            r@ == descriptor_bytes(*self),
    {
        let mut bytes: Vec<u8> = Vec::new();
        append_u64(&mut bytes, self.id);
        append_u64(&mut bytes, self.name_hash);
        append_u64(&mut bytes, self.offset);
        append_u64(&mut bytes, self.size);
        append_u64(&mut bytes, self.original_size);
        append_u64(&mut bytes, self.operations);
        append_u64(&mut bytes, self.checksum);
        bytes.push(self.purpose);
        bytes.push(self.lifecycle);
        bytes.push(self.priority);
        bytes.push(self.platform);
        bytes.push(self.reserved1);
        bytes.push(self.reserved2);
        bytes.push(self.permissions);
        bytes.push(self.permissions_high);
        proof {
            lemma_auto_spec_u64_to_from_le_bytes();
            assert(bytes@ =~= descriptor_bytes(*self));
        }
        read_array(bytes.as_slice(), 0)
    }

    /// Parse a descriptor: `None` unless `data` is exactly 64 bytes; every
    /// 64-byte record parses, to the one descriptor whose bytes it is.
    pub fn unpack(data: &[u8]) -> (r: Option<SlotDescriptor>)
        ensures
            r is Some <==> data@.len() == SLOT_DESCRIPTOR_SIZE,
            r is Some ==> descriptor_bytes(r->Some_0) == data@,
    {
        if data.len() != SLOT_DESCRIPTOR_SIZE {
            return None;
        }
        let ghost d = data@;
        let id = read_u64(data, 0);
        let name_hash = read_u64(data, 8);
        let offset = read_u64(data, 16);
        let size = read_u64(data, 24);
        let original_size = read_u64(data, 32);
        let operations = read_u64(data, 40);
        let checksum = read_u64(data, 48);
        let desc = SlotDescriptor {
            id,
            name_hash,
            offset,
            size,
            original_size,
            operations,
            checksum,
            purpose: data[56],
            lifecycle: data[57],
            priority: data[58],
            platform: data[59],
            reserved1: data[60],
            reserved2: data[61],
            permissions: data[62],
            permissions_high: data[63],
        };
        proof {
            assert(d.subrange(0, 8) + d.subrange(8, 16) =~= d.subrange(0, 16));
            assert(d.subrange(0, 16) + d.subrange(16, 24) =~= d.subrange(0, 24));
            assert(d.subrange(0, 24) + d.subrange(24, 32) =~= d.subrange(0, 32));
            assert(d.subrange(0, 32) + d.subrange(32, 40) =~= d.subrange(0, 40));
            assert(d.subrange(0, 40) + d.subrange(40, 48) =~= d.subrange(0, 48));
            assert(d.subrange(0, 48) + d.subrange(48, 56) =~= d.subrange(0, 56));
            assert(d.subrange(0, 56) + d.subrange(56, 64) =~= d);
            assert(d.subrange(56, 64) =~= seq![d[56], d[57], d[58], d[59], d[60], d[61], d[62], d[63]]);
        }
        Some(desc)
    }
}

/// Packing a descriptor that was read from 64 bytes gives back those bytes,
/// and unpacking a packed descriptor gives back the descriptor.
pub proof fn lemma_descriptor_round_trip(d: SlotDescriptor, e: SlotDescriptor)
    ensures
        descriptor_bytes(d).len() == SLOT_DESCRIPTOR_SIZE,
        descriptor_bytes(d) == descriptor_bytes(e) ==> d == e,
{
    lemma_auto_spec_u64_to_from_le_bytes();
    if descriptor_bytes(d) == descriptor_bytes(e) {
        let a = descriptor_bytes(d);
        let b = descriptor_bytes(e);
        assert(a.subrange(0, 8) == spec_u64_to_le_bytes(d.id));
        assert(a.subrange(8, 16) == spec_u64_to_le_bytes(d.name_hash));
        assert(a.subrange(16, 24) == spec_u64_to_le_bytes(d.offset));
        assert(a.subrange(24, 32) == spec_u64_to_le_bytes(d.size));
        assert(a.subrange(32, 40) == spec_u64_to_le_bytes(d.original_size));
        assert(a.subrange(40, 48) == spec_u64_to_le_bytes(d.operations));
        assert(a.subrange(48, 56) == spec_u64_to_le_bytes(d.checksum));
        assert(b.subrange(0, 8) == spec_u64_to_le_bytes(e.id));
        assert(b.subrange(8, 16) == spec_u64_to_le_bytes(e.name_hash));
        assert(b.subrange(16, 24) == spec_u64_to_le_bytes(e.offset));
        assert(b.subrange(24, 32) == spec_u64_to_le_bytes(e.size));
        assert(b.subrange(32, 40) == spec_u64_to_le_bytes(e.original_size));
        assert(b.subrange(40, 48) == spec_u64_to_le_bytes(e.operations));
        assert(b.subrange(48, 56) == spec_u64_to_le_bytes(e.checksum));
        assert(a[56] == b[56] && a[57] == b[57] && a[58] == b[58] && a[59] == b[59]);
        assert(a[60] == b[60] && a[61] == b[61] && a[62] == b[62] && a[63] == b[63]);
    }
}

/// What a slot holds, by purpose code.
#[derive(Clone, Copy, Debug, PartialEq, Eq, Structural)]
pub enum Purpose {
    Data,
    Code,
    Config,
    Media,
}

/// How long a slot's bytes are kept.
#[derive(Clone, Copy, Debug, PartialEq, Eq, Structural)]
pub enum Lifecycle {
    Permanent,
    Cached,
    Temporary,
    Stream,
}

impl Purpose {
    /// The purpose code stored in a descriptor.
    pub fn code(&self) -> (r: u8)
        ensures
            r == match *self {
                Purpose::Data => 0u8,
                Purpose::Code => 1u8,
                Purpose::Config => 2u8,
                Purpose::Media => 3u8,
            },
    {
        match self {
            Purpose::Data => 0,
            Purpose::Code => 1,
            Purpose::Config => 2,
            Purpose::Media => 3,
        }
    }
}

impl Lifecycle {
    /// The lifecycle code of this variant.
    pub fn code(&self) -> (r: u8)
        ensures
            r == match *self {
                Lifecycle::Permanent => 0u8,
                Lifecycle::Cached => 1u8,
                Lifecycle::Temporary => 2u8,
                Lifecycle::Stream => 3u8,
            },
    {
        match self {
            Lifecycle::Permanent => 0,
            Lifecycle::Cached => 1,
            Lifecycle::Temporary => 2,
            Lifecycle::Stream => 3,
        }
    }
}

/// A descriptor with the slot's name and, once known, where it was written.
#[derive(Debug)]
pub struct SlotMetadata {
    pub descriptor: SlotDescriptor,
    pub name: String,
    pub path: Option<String>,
}

impl SlotMetadata {
    pub fn new(descriptor: SlotDescriptor, name: String) -> (r: SlotMetadata)
        ensures
            r.descriptor == descriptor,
            r.name == name,
            r.path is None,
    {
        SlotMetadata { descriptor, name, path: None }
    }

    pub fn with_path(self, path: String) -> (r: SlotMetadata)
        ensures
            r.descriptor == self.descriptor,
            r.name == self.name,
            r.path == Some(path),
    {
        SlotMetadata { path: Some(path), ..self }
    }
}

/// The smallest multiple of `alignment` that is at least `offset`.
pub fn align_offset(offset: u64, alignment: u64) -> (r: u64)
    requires
        alignment > 0,
        offset + alignment - 1 <= u64::MAX,
    ensures
        r % alignment == 0,
        offset <= r < offset + alignment,
        r as int == offset as int + (alignment as int - offset as int % alignment as int) % alignment as int,
{
    let rem = offset % alignment;
    if rem == 0 {
        proof {
            vstd::arithmetic::div_mod::lemma_mod_self_0(alignment as int);
        }
        offset
    } else {
        proof {
            vstd::arithmetic::div_mod::lemma_small_mod((alignment - rem) as nat, alignment as nat);
        }
        let r = offset + (alignment - rem);
        assert(r % alignment == 0) by (nonlinear_arith)
            requires
                rem == offset % alignment,
                r == offset + (alignment - rem),
                alignment > 0,
                rem > 0,
        {
            assert(offset == alignment * (offset / alignment) + rem);
            assert(r == alignment * (offset / alignment + 1));
        }
        r
    }
}

/// `offset` rounded up to the page size (4096).
pub fn align_to_page(offset: u64) -> (r: u64)
    requires
        offset + DEFAULT_PAGE_SIZE - 1 <= u64::MAX,
    ensures
        r % DEFAULT_PAGE_SIZE == 0,
        offset <= r < offset + DEFAULT_PAGE_SIZE,
{
    align_offset(offset, DEFAULT_PAGE_SIZE)
}

} // verus!
