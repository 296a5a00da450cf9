use flavor::api::{detect_format, verify_package, PackageFormat, VerifyResult};
use flavor::builder::{process_slots, seal_and_assemble, should_use_resource_embedding};
use flavor::crypto::generate_keys_from_seed;
use flavor::error::FlavorError;
use flavor::extraction::{plan_slot_extraction, ExtractionPlan};
use flavor::index::Index;
use flavor::metadata::{ManifestSlot, PackageInfo};
use flavor::package::{
    assemble_package, read_magic_trailer, read_metadata_bytes, read_slot, read_slot_descriptors,
};
use flavor::seal::verify;
use flavor::slots::SlotDescriptor;

fn slot(id: &str, source: &str, target: &str, operations: &str) -> ManifestSlot {
    ManifestSlot {
        slot: None,
        id: id.to_string(),
        source: source.to_string(),
        target: target.to_string(),
        operations: operations.to_string(),
        purpose: "payload".to_string(),
        lifecycle: "runtime".to_string(),
        permissions: None,
        resolution: None,
    }
}

fn gz(data: &[u8]) -> Vec<u8> {
    let mut e = flate2::write::GzEncoder::new(Vec::new(), flate2::Compression::default());
    std::io::Write::write_all(&mut e, data).unwrap();
    e.finish().unwrap()
}

fn build_hello(launcher: &[u8]) -> Vec<u8> {
    let slots = vec![slot("hello", "hello.txt", "hello.txt", "gzip")];
    let payloads = vec![gz(b"hi\n")];
    let processed = process_slots(&slots, &payloads).unwrap();
    let json = br#"{"format":"PSPF/2025","package":{"name":"hello","version":"1.0"},"slots":[{}]}"#;
    let (secret, _public) = generate_keys_from_seed("t");
    seal_and_assemble(launcher.to_vec(), json, &processed, &payloads, &secret).unwrap().bytes
}

#[test]
fn minimal_single_file_package() {
    let launcher = b"#!/bin/sh\necho launcher\n".to_vec();
    let pkg = build_hello(&launcher);
    assert!(pkg.len() > 8200);
    assert_eq!(&pkg[..launcher.len()], &launcher[..]);
    assert_eq!(&pkg[pkg.len() - 4..], &[0xF0, 0x9F, 0xAA, 0x84]);
    assert_eq!(&pkg[pkg.len() - 8200..pkg.len() - 8196], &[0xF0, 0x9F, 0x93, 0xA6]);
    assert_eq!(detect_format(&pkg).unwrap(), PackageFormat::PSPF2025);

    let (index, report) = verify(&pkg).unwrap();
    assert!(report.signature_valid());
    assert_eq!(index.slot_count, 1);
    let (report2, json) = verify_package(&pkg).unwrap();
    assert_eq!(report2, report);
    assert!(json.starts_with(b"{\"format\""));
    let package = PackageInfo { name: "hello".to_string(), version: "1.0".to_string() };
    let result = VerifyResult::new(&report, &package, 1);
    assert_eq!(result.format, "PSPF/2025");
    assert_eq!(result.version, "0x20250001");
    assert!(result.signature_valid);

    let descriptors = read_slot_descriptors(&pkg, &index).unwrap();
    assert_eq!(descriptors.len(), 1);
    assert_eq!(descriptors[0].offset % 8, 0);
    let stored = read_slot(&pkg, &descriptors[0]).unwrap();
    let plan = plan_slot_extraction(stored, &descriptors[0], "hello.txt", "/cache/workenv/hello").unwrap();
    match plan {
        ExtractionPlan::File { path, data, mode } => {
            assert_eq!(path, "/cache/workenv/hello/hello.txt");
            assert_eq!(data, b"hi\n".to_vec());
            assert_eq!(mode, 0o600);
        }
        ExtractionPlan::Archive { .. } => panic!("expected a single file"),
    }
}

#[test]
fn deterministic_builds_are_identical() {
    let a = build_hello(b"LAUNCHER");
    let b = build_hello(b"LAUNCHER");
    assert_eq!(a, b);
}

#[test]
fn tampered_slot_data_keeps_metadata_checks() {
    let mut pkg = build_hello(b"LAUNCHER");
    let (index, _) = verify(&pkg).unwrap();
    let d = read_slot_descriptors(&pkg, &index).unwrap()[0];
    pkg[d.offset as usize] ^= 0xFF;
    let (_, report) = verify(&pkg).unwrap();
    assert!(report.metadata_checksum_valid);
    assert!(report.index_checksum_valid);
}

#[test]
fn tampered_metadata_fails_checks() {
    let mut pkg = build_hello(b"LAUNCHER");
    let (index, _) = verify(&pkg).unwrap();
    pkg[index.metadata_offset as usize + 20] ^= 0x01;
    assert_eq!(read_metadata_bytes(&pkg, &index).err(), Some(FlavorError::ChecksumMismatch));
    match verify(&pkg) {
        Ok((_, report)) => {
            assert!(!report.metadata_checksum_valid);
            assert!(!report.signature_valid());
        }
        Err(e) => assert!(matches!(e, FlavorError::Decode(_))),
    }
}

#[test]
fn empty_launcher_and_no_slots() {
    let built = assemble_package(&[], b"meta", &vec![], &vec![], &vec![], Index::new());
    assert_eq!(built.index.launcher_size, 0);
    assert_eq!(built.index.metadata_offset, 8192);
    assert_eq!(built.index.slot_count, 0);
    assert_eq!(built.index.slot_table_size, 0);
    assert_eq!(built.bytes.len() as u64, built.index.package_size);
    let raw = read_magic_trailer(&built.bytes).unwrap();
    assert_eq!(raw, built.index.pack());
    assert!(read_slot_descriptors(&built.bytes, &built.index).unwrap().is_empty());
}

#[test]
fn self_referential_slot_gets_empty_descriptor() {
    let slots = vec![slot("me", "$SELF", "self", "none"), slot("data", "d.bin", "d.bin", "none")];
    let payloads = vec![vec![], vec![1, 2, 3]];
    let p = process_slots(&slots, &payloads).unwrap();
    assert!(p.self_ref[0]);
    assert_eq!(p.descriptors[0].size, 0);
    assert_eq!(p.checksums[0], "");
    assert!(p.checksums[1].starts_with("sha256:"));
    let built = assemble_package(b"L", b"m", &payloads, &p.descriptors, &p.self_ref, Index::new());
    assert_eq!(built.descriptors[0].offset, 0);
    assert_eq!(built.descriptors[1].size, 3);
    assert_eq!(read_slot(&built.bytes, &built.descriptors[1]).unwrap(), vec![1, 2, 3]);
}

#[test]
fn declared_slot_position_must_match() {
    let mut s = slot("a", "a", "a", "none");
    s.slot = Some(1);
    assert!(matches!(process_slots(&vec![s], &vec![vec![1]]), Err(FlavorError::Manifest(_))));
}

#[test]
fn trailer_errors() {
    assert_eq!(read_magic_trailer(&[0u8; 10]).err(), Some(FlavorError::InvalidMagic));
    assert_eq!(read_magic_trailer(&vec![0u8; 9000]).err(), Some(FlavorError::InvalidMagic));
    assert_eq!(detect_format(&vec![0u8; 9000]).err(), Some(FlavorError::InvalidMagic));
    assert_eq!(should_use_resource_embedding(b"MZ").unwrap(), false);
}

#[test]
fn descriptor_records_stored_bytes() {
    let slots = vec![slot("x", "x", "x", "tgz")];
    let payloads = vec![b"stored".to_vec()];
    let p = process_slots(&slots, &payloads).unwrap();
    let d: SlotDescriptor = p.descriptors[0];
    assert_eq!(d.operations, 0x1001);
    assert_eq!(d.size, 6);
    let digest = <sha2::Sha256 as sha2::Digest>::digest(b"stored");
    let mut first = [0u8; 8];
    first.copy_from_slice(&digest[..8]);
    assert_eq!(d.checksum, u64::from_le_bytes(first));
}

#[test]
fn altered_signature_fails_the_seal() {
    let mut pkg = build_hello(b"LAUNCHER");
    let n = pkg.len();
    pkg[n - 8196 + 128] ^= 0x01;
    let (_, report) = verify(&pkg).unwrap();
    assert!(!report.integrity_seal_valid);
    assert!(!report.index_checksum_valid);
    assert!(report.metadata_checksum_valid);
    assert!(!report.signature_valid());
}

#[test]
fn other_seed_gives_other_key() {
    let (a, pa) = generate_keys_from_seed("t");
    let (b, pb) = generate_keys_from_seed("u");
    assert_ne!(a, b);
    assert_ne!(pa, pb);
    assert_ne!(pa, a);
}
