use flavor::constants::{HEADER_SIZE, PSPF_VERSION};
use flavor::error::FlavorError;
use flavor::index::Index;

fn sample_index() -> Index {
    let mut idx = Index::new();
    idx.package_size = 123_456;
    idx.launcher_size = 1000;
    idx.metadata_offset = 9192;
    idx.metadata_size = 300;
    idx.slot_table_offset = 9496;
    idx.slot_table_size = 128;
    idx.slot_count = 2;
    idx.public_key = [7u8; 32];
    idx.metadata_checksum = [9u8; 32];
    idx.integrity_signature[0] = 1;
    idx.reserved[6815] = 0xAB;
    idx
}

#[test]
fn new_index_defaults() {
    let idx = Index::new();
    assert_eq!(idx.format_version, PSPF_VERSION);
    assert_eq!(idx.page_size, 4096);
    assert_eq!(idx.protocol_version, 1);
    assert_eq!(idx.compatibility, PSPF_VERSION);
}

#[test]
fn pack_layout_and_checksum() {
    let idx = sample_index();
    let bytes = idx.pack();
    assert_eq!(bytes.len(), HEADER_SIZE);
    assert_eq!(&bytes[0..4], &PSPF_VERSION.to_le_bytes());
    assert_eq!(&bytes[8..16], &123_456u64.to_le_bytes());
    assert_eq!(&bytes[56..60], &2u32.to_le_bytes());
    assert_eq!(&bytes[64..96], &[7u8; 32]);
    assert_eq!(bytes[8191], 0xAB);
    let mut zeroed = bytes.clone();
    zeroed[4..8].copy_from_slice(&[0, 0, 0, 0]);
    let expected = adler::adler32_slice(&zeroed);
    assert_eq!(&bytes[4..8], &expected.to_le_bytes());
    assert_ne!(expected, 0);
}

#[test]
fn unpack_then_pack_gives_block_back() {
    let bytes = sample_index().pack();
    let parsed = Index::unpack(&bytes).unwrap();
    assert_eq!(parsed.package_size, 123_456);
    assert_eq!(parsed.slot_count, 2);
    assert_eq!(parsed.pack(), bytes);
    assert!(parsed.verify_checksum_raw(&bytes));
    assert!(parsed.verify_checksum());
}

#[test]
fn unpack_rejects_wrong_size() {
    assert_eq!(Index::unpack(&[0u8; 100]).err(), Some(FlavorError::InvalidSize));
    assert_eq!(Index::unpack(&vec![0u8; 8193]).err(), Some(FlavorError::InvalidSize));
}

#[test]
fn corrupted_block_fails_checksum() {
    let mut bytes = sample_index().pack();
    bytes[100] ^= 1;
    let parsed = Index::unpack(&bytes).unwrap();
    assert!(!parsed.verify_checksum_raw(&bytes));
    assert!(!parsed.verify_checksum_raw(&bytes[..100]));
}
