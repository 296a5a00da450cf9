use vstd::prelude::*;

verus! {

/// Opening sentinel of the magic trailer (the package emoji in UTF-8).
pub const PACKAGE_EMOJI_0: u8 = 0xF0;
pub const PACKAGE_EMOJI_1: u8 = 0x9F;
pub const PACKAGE_EMOJI_2: u8 = 0x93;
pub const PACKAGE_EMOJI_3: u8 = 0xA6;

/// Closing sentinel of the magic trailer (the magic wand emoji in UTF-8).
pub const MAGIC_WAND_0: u8 = 0xF0;
pub const MAGIC_WAND_1: u8 = 0x9F;
pub const MAGIC_WAND_2: u8 = 0xAA;
pub const MAGIC_WAND_3: u8 = 0x84;

/// Format version stored at the start of the index block.
pub const PSPF_VERSION: u32 = 0x20250001;
pub const FORMAT_VERSION: u32 = PSPF_VERSION;

/// Size of the index block.
pub const HEADER_SIZE: usize = 8192;
/// Size of one packed slot descriptor.
pub const SLOT_DESCRIPTOR_SIZE: usize = 64;
/// Sentinel (4) + index block (8192) + sentinel (4).
pub const MAGIC_TRAILER_SIZE: usize = 8200;
/// Slot payloads start on multiples of this.
pub const SLOT_ALIGNMENT: u64 = 8;

pub const OP_NONE: u8 = 0x00;
pub const OP_TAR: u8 = 0x01;
pub const OP_GZIP: u8 = 0x10;
pub const OP_BZIP2: u8 = 0x13;
pub const OP_XZ: u8 = 0x16;
pub const OP_ZSTD: u8 = 0x1B;

pub const DEFAULT_PAGE_SIZE: u64 = 4096;
pub const DEFAULT_FILE_PERMS: u16 = 0o600;
pub const DEFAULT_DIR_PERMS: u16 = 0o700;
pub const CACHE_NORMAL: u8 = 1;

/// The opening sentinel as a sequence.
pub open spec fn package_emoji() -> Seq<u8> {
    seq![PACKAGE_EMOJI_0, PACKAGE_EMOJI_1, PACKAGE_EMOJI_2, PACKAGE_EMOJI_3]
}

/// The closing sentinel as a sequence.
pub open spec fn magic_wand() -> Seq<u8> {
    seq![MAGIC_WAND_0, MAGIC_WAND_1, MAGIC_WAND_2, MAGIC_WAND_3]
}

} // verus!
