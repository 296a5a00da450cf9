use flavor::slot_processor::parse_octal_mode;

#[test]
fn test_parse_octal_mode() {
    assert_eq!(parse_octal_mode("0700").unwrap(), 0o700);
    assert_eq!(parse_octal_mode("0755").unwrap(), 0o755);
    assert_eq!(parse_octal_mode("700").unwrap(), 0o700);
    assert_eq!(parse_octal_mode("0077").unwrap(), 0o077);
}

#[test]
fn octal_mode_rejects_other_digits() {
    assert!(parse_octal_mode("0789").is_err());
    assert!(parse_octal_mode("0000").is_err());
}
