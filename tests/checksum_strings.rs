use flavor::checksums::{
    calculate_checksum_bytes, hex_encode, parse_checksum, verify_checksum, ChecksumAlgorithm,
};

#[test]
fn parse_tagged_and_untagged() {
    let (a, v) = parse_checksum("sha512:abc").unwrap();
    assert_eq!(a, ChecksumAlgorithm::Sha512);
    assert_eq!(v, "abc");
    let (a, v) = parse_checksum("adler32:0a:b").unwrap();
    assert_eq!(a, ChecksumAlgorithm::Adler32);
    assert_eq!(v, "0a:b");
    assert!(parse_checksum("md5:abc").is_err());
    assert_eq!(parse_checksum("12345678").unwrap().0, ChecksumAlgorithm::Adler32);
    assert_eq!(parse_checksum(&"a".repeat(128)).unwrap().0, ChecksumAlgorithm::Sha512);
    assert_eq!(parse_checksum("abc").unwrap().0, ChecksumAlgorithm::Sha256);
}

#[test]
fn compute_and_verify() {
    let sha = calculate_checksum_bytes(b"abc", ChecksumAlgorithm::Sha256).unwrap();
    assert_eq!(sha, "sha256:ba7816bf8f01cfea414140de5dae2223b00361a396177a9cb410ff61f20015ad");
    let adler = calculate_checksum_bytes(b"abc", ChecksumAlgorithm::Adler32).unwrap();
    assert_eq!(adler, "adler32:024d0127");
    assert!(calculate_checksum_bytes(b"abc", ChecksumAlgorithm::Blake2b).is_err());
    assert!(verify_checksum(b"abc", &sha).unwrap());
    assert!(verify_checksum(b"abc", "024d0127").unwrap());
    assert!(!verify_checksum(b"abd", &sha).unwrap());
    assert!(verify_checksum(b"abc", "blake2b:00").is_err());
    let sha512 = calculate_checksum_bytes(b"abc", ChecksumAlgorithm::Sha512).unwrap();
    assert!(sha512.starts_with("sha512:ddaf35a1"));
    assert_eq!(hex_encode(&[0x00, 0xff, 0x1a]), "00ff1a");
}
