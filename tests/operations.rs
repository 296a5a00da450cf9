use flavor::constants::{OP_GZIP, OP_TAR};
use flavor::operations::{pack_operations, unpack_operations};

#[test]
fn test_pack_single_operation() {
    let ops = vec![OP_GZIP];
    let packed = pack_operations(&ops);
    assert_eq!(packed, 0x0000000000000010);
}

#[test]
fn test_pack_multiple_operations() {
    let ops = vec![OP_TAR, OP_GZIP];
    let packed = pack_operations(&ops);
    assert_eq!(packed, 0x0000000000001001);
}

#[test]
fn test_unpack_single_operation() {
    let packed = 0x0000000000000010_u64;
    let ops = unpack_operations(packed);
    assert_eq!(ops, vec![0x10]);
}

#[test]
fn test_unpack_multiple_operations() {
    let packed = 0x0000000000001001_u64;
    let ops = unpack_operations(packed);
    assert_eq!(ops, vec![0x01, 0x10]);
}

#[test]
fn test_round_trip() {
    let original = vec![OP_TAR, OP_GZIP];
    let packed = pack_operations(&original);
    let unpacked = unpack_operations(packed);
    assert_eq!(original, unpacked);
}

#[test]
fn test_empty_operations() {
    let ops: Vec<u8> = vec![];
    let packed = pack_operations(&ops);
    assert_eq!(packed, 0);

    let unpacked = unpack_operations(0);
    let expected: Vec<u8> = vec![];
    assert_eq!(unpacked, expected);
}

#[test]
fn test_too_many_operations() {
    let ops = vec![1, 2, 3, 4, 5, 6, 7, 8, 9, 10];
    let packed = pack_operations(&ops);
    let unpacked = unpack_operations(packed);
    assert_eq!(unpacked.len(), 8);
    assert_eq!(unpacked, vec![1, 2, 3, 4, 5, 6, 7, 8]);
}

#[test]
fn unpack_stops_at_the_first_zero_code() {
    assert_eq!(unpack_operations(0x0000000000100001), vec![0x01]);
}
