use flavor::slots::{align_offset, align_to_page, Lifecycle, Purpose, SlotDescriptor, SlotMetadata};

#[test]
fn descriptor_round_trip() {
    let mut d = SlotDescriptor::new(3).with_name("hello");
    d.offset = 0x2000;
    d.size = 42;
    d.original_size = 42;
    d.operations = 0x1001;
    d.checksum = 0x0102030405060708;
    let bytes = d.pack();
    assert_eq!(&bytes[0..8], &3u64.to_le_bytes());
    assert_eq!(&bytes[48..56], &0x0102030405060708u64.to_le_bytes());
    assert_eq!(bytes[62], 0x80);
    assert_eq!(bytes[63], 0x01);
    let back = SlotDescriptor::unpack(&bytes).unwrap();
    assert_eq!(back.pack(), bytes);
    assert_eq!(back.offset, 0x2000);
}

#[test]
fn descriptor_unpack_needs_64_bytes() {
    assert!(SlotDescriptor::unpack(&[0u8; 63]).is_none());
    assert!(SlotDescriptor::unpack(&[0u8; 65]).is_none());
}

#[test]
fn name_hash_is_sha256_prefix() {
    let digest = <sha2::Sha256 as sha2::Digest>::digest(b"hello");
    let mut first = [0u8; 8];
    first.copy_from_slice(&digest[..8]);
    assert_eq!(SlotDescriptor::hash_name("hello"), u64::from_le_bytes(first));
    assert_ne!(SlotDescriptor::hash_name("hello"), SlotDescriptor::hash_name("hellp"));
}

#[test]
fn alignment() {
    assert_eq!(align_offset(0, 8), 0);
    assert_eq!(align_offset(1, 8), 8);
    assert_eq!(align_offset(8, 8), 8);
    assert_eq!(align_offset(13, 8), 16);
    assert_eq!(align_to_page(1), 4096);
    assert_eq!(align_to_page(4096), 4096);
}

#[test]
fn codes_and_metadata() {
    assert_eq!(Purpose::Media.code(), 3);
    assert_eq!(Lifecycle::Stream.code(), 3);
    let m = SlotMetadata::new(SlotDescriptor::new(1), "x".to_string()).with_path("/tmp/x".to_string());
    assert_eq!(m.path, Some("/tmp/x".to_string()));
}
