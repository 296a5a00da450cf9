use flavor::error::FlavorError;
use flavor::metadata::{default_lifecycle, default_purpose, default_true};
use flavor::slot_processor::{get_lifecycle_byte, get_purpose_byte, is_self_referential, parse_octal};
use flavor::version::full_version;
use flavor::xor::{xor_const, xor_decode, xor_decode_default, xor_encode, xor_encode_default};

#[test]
fn xor_round_trips() {
    let data = b"secret payload".to_vec();
    let enc = xor_encode_default(&data);
    assert_ne!(enc, data);
    assert_eq!(enc[0], b's' ^ 3);
    assert_eq!(xor_decode_default(&enc), data);
    assert_eq!(xor_decode(&xor_encode(&data, &[9, 9]), &[9, 9]), data);
    assert_eq!(xor_encode(&data, &[]), enc);
    let c: [u8; 4] = xor_const(b"ab", &[1]);
    assert_eq!(c, [b'a' ^ 1, b'b' ^ 1, 0, 0]);
}

#[test]
fn version_string() {
    assert_eq!(full_version(None, None), "0.3.0");
    assert_eq!(full_version(Some("0123456789ab"), Some("today")), "0.3.0 (01234567) built today");
    assert_eq!(full_version(Some("abc"), None), "0.3.0 (abc)");
}

#[test]
fn exit_codes() {
    assert_eq!(FlavorError::InvalidMagic.exit_code(), 102);
    assert_eq!(FlavorError::OperationMismatch.exit_code(), 103);
    assert_eq!(FlavorError::SetupFailed("x".to_string()).exit_code(), 104);
    assert_eq!(FlavorError::LauncherMissing.exit_code(), 105);
    assert_eq!(FlavorError::Io("x".to_string()).exit_code(), 106);
    assert_eq!(FlavorError::Manifest("x".to_string()).exit_code(), 108);
    assert_eq!(FlavorError::MissingRequiredEnv(vec![]).exit_code(), 109);
}

#[test]
fn manifest_codes() {
    assert_eq!(get_purpose_byte("tool"), 3);
    assert_eq!(get_purpose_byte("other"), 0);
    assert_eq!(get_lifecycle_byte("temporary"), 5);
    assert_eq!(get_lifecycle_byte("runtime"), 2);
    assert!(is_self_referential("$SELF"));
    assert!(!is_self_referential("self"));
    assert_eq!(default_purpose(), "data");
    assert_eq!(default_lifecycle(), "runtime");
    assert!(default_true());
    assert_eq!(parse_octal("+17", 0xFFFF), Some(0o17));
    assert_eq!(parse_octal("0200000", 0xFFFF), None);
}
