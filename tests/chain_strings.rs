use flavor::chain::{
    chain_from_lowered, code_of_upper,
    get_name, operations_to_chain_key, operations_to_string, pack_operations, string_to_operations,
    unpack_operations, GzipOperation, Operation, OperationError,
};

#[test]
fn named_chains_parse() {
    assert_eq!(string_to_operations("tgz").unwrap(), 0x1001);
    assert_eq!(string_to_operations("TAR.GZ").unwrap(), 0x1001);
    assert_eq!(string_to_operations("gzip").unwrap(), 0x10);
    assert_eq!(string_to_operations("").unwrap(), 0);
    assert_eq!(string_to_operations("RAW").unwrap(), 0);
}

#[test]
fn piped_chains_parse() {
    assert_eq!(string_to_operations("tar|gzip").unwrap(), 0x1001);
    assert_eq!(string_to_operations(" tar | | zstd ").unwrap(), 0x1B01);
    assert!(matches!(string_to_operations("tar|rar"), Err(OperationError::InvalidData(_))));
    assert!(matches!(string_to_operations("zip"), Err(OperationError::InvalidData(_))));
    assert!(string_to_operations("gzip|gzip|gzip|gzip|gzip|gzip|gzip|gzip|gzip").is_err());
}

#[test]
fn chains_print() {
    assert_eq!(operations_to_string(0), "raw");
    assert_eq!(operations_to_string(0x1001), "tar.gz");
    assert_eq!(operations_to_string(0x10), "gzip");
    assert_eq!(operations_to_string(0x1610), "gzip|xz");
    assert_eq!(operations_to_chain_key(&[0x01, 0x10]), "01-10");
    assert_eq!(operations_to_chain_key(&[]), "");
    assert_eq!(get_name(0x1B), "ZSTD");
    assert_eq!(get_name(0x99), "UNKNOWN");
}

#[test]
fn generic_chain_limits() {
    assert_eq!(pack_operations(&[1, 0x10]).unwrap(), 0x1001);
    assert!(pack_operations(&[1; 9]).is_err());
    assert_eq!(unpack_operations(0x0000000000100001), vec![0x01]);
}

#[test]
fn gzip_operation_round_trips() {
    let op = GzipOperation;
    assert_eq!(op.id(), 0x10);
    let packed = op.apply(b"payload bytes").unwrap();
    assert_ne!(packed, b"payload bytes".to_vec());
    assert_eq!(op.reverse(&packed).unwrap(), b"payload bytes".to_vec());
    assert!(matches!(op.reverse(b"not gzip"), Err(OperationError::Compression(_))));
    let empty = op.compress(b"");
    assert_eq!(op.decompress(&empty).unwrap(), Vec::<u8>::new());
}

#[test]
fn lowered_and_upper_forms() {
    assert_eq!(chain_from_lowered("tgz").unwrap(), 0x1001);
    assert_eq!(chain_from_lowered("raw").unwrap(), 0);
    assert!(chain_from_lowered("TGZ").is_err());
    assert_eq!(code_of_upper("GZIP"), Some(0x10));
    assert_eq!(code_of_upper("gzip"), None);
}
