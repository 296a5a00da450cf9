use flavor::error::FlavorError;
use flavor::extraction::{decode_slot, file_mode, is_tarball, plan_slot_extraction, ExtractionPlan};
use flavor::slots::SlotDescriptor;

fn gz(data: &[u8]) -> Vec<u8> {
    let mut e = flate2::write::GzEncoder::new(Vec::new(), flate2::Compression::default());
    std::io::Write::write_all(&mut e, data).unwrap();
    e.finish().unwrap()
}

fn tarball() -> Vec<u8> {
    let mut b = tar::Builder::new(Vec::new());
    let mut h = tar::Header::new_ustar();
    h.set_size(4);
    h.set_mode(0o755);
    h.set_cksum();
    b.append_data(&mut h, "bin/tool", &b"tool"[..]).unwrap();
    let mut h2 = tar::Header::new_ustar();
    h2.set_size(5);
    h2.set_mode(0o644);
    h2.set_cksum();
    b.append_data(&mut h2, "share/data.txt", &b"data\n"[..]).unwrap();
    b.into_inner().unwrap()
}

#[test]
fn empty_chain_passes_through() {
    assert_eq!(decode_slot(b"raw".to_vec(), 0).unwrap(), b"raw".to_vec());
}

#[test]
fn gzip_of_empty_round_trips() {
    assert_eq!(decode_slot(gz(b""), 0x10).unwrap(), Vec::<u8>::new());
}

#[test]
fn bad_gzip_and_unknown_codes_fail() {
    assert!(matches!(decode_slot(b"nope".to_vec(), 0x10), Err(FlavorError::Decode(_))));
    assert_eq!(decode_slot(b"x".to_vec(), 0x13).err(), Some(FlavorError::UnknownOperation(0x13)));
}

#[test]
fn tar_declared_without_ustar_is_a_mismatch() {
    let mut d = SlotDescriptor::new(0);
    d.operations = 0x01;
    assert_eq!(
        plan_slot_extraction(vec![0u8; 600], &d, "x", "/w").err(),
        Some(FlavorError::OperationMismatch)
    );
}

#[test]
fn tgz_slot_gives_the_archive() {
    let t = tarball();
    assert!(is_tarball(&t));
    let mut d = SlotDescriptor::new(0);
    d.operations = 0x1001;
    match plan_slot_extraction(gz(&t), &d, "{workenv}/", "/w").unwrap() {
        ExtractionPlan::Archive { data } => {
            assert_eq!(data, t);
            let mut a = tar::Archive::new(std::io::Cursor::new(data));
            let modes: Vec<u32> = a.entries().unwrap().map(|e| e.unwrap().header().mode().unwrap()).collect();
            assert_eq!(modes, vec![0o755, 0o644]);
        }
        ExtractionPlan::File { .. } => panic!("expected an archive"),
    }
}

#[test]
fn single_file_target_and_mode() {
    let mut d = SlotDescriptor::new(0);
    d.permissions = 0xED;
    d.permissions_high = 0x01;
    assert_eq!(file_mode(&d), 0o755);
    match plan_slot_extraction(b"x".to_vec(), &d, "{workenv}/bin/run", "/w").unwrap() {
        ExtractionPlan::File { path, mode, .. } => {
            assert_eq!(path, "/w/bin/run");
            assert_eq!(mode, 0o755);
        }
        ExtractionPlan::Archive { .. } => panic!("expected a file"),
    }
    d.permissions = 0;
    d.permissions_high = 0;
    assert_eq!(file_mode(&d), 0o600);
    assert!(!is_tarball(&[0u8; 100]));
}
