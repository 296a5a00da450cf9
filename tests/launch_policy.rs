use flavor::error::FlavorError;
use flavor::launch::{
    launch_step, lock_acquired, lock_action, parse_pid, rewrite_shebang, wait_step, CreateOutcome,
    LaunchEvent, LaunchPhase, LockAction, WaitAction,
};
use flavor::validation::{
    format_hex8, on_failure, signature_gate, validate_package_checksum, validation_level_from, Check,
    Outcome, ValidationLevel,
};

#[test]
fn levels_parse_and_print() {
    assert_eq!(ValidationLevel::parse("STRICT"), Some(ValidationLevel::Strict));
    assert_eq!(ValidationLevel::parse("none"), Some(ValidationLevel::Off));
    assert_eq!(ValidationLevel::parse("bogus"), None);
    assert_eq!(ValidationLevel::Relaxed.as_str(), "relaxed");
    assert_eq!(validation_level_from(None), ValidationLevel::Standard);
    assert_eq!(validation_level_from(Some("bogus")), ValidationLevel::Standard);
    assert_eq!(validation_level_from(Some("minimal")), ValidationLevel::Minimal);
}

#[test]
fn policy_table() {
    assert_eq!(on_failure(ValidationLevel::Off, Check::Signature), Outcome::Skip);
    assert_eq!(on_failure(ValidationLevel::Standard, Check::Signature), Outcome::WarnLoudly);
    assert_eq!(on_failure(ValidationLevel::Strict, Check::Signature), Outcome::Fatal);
    assert_eq!(on_failure(ValidationLevel::Minimal, Check::MetadataChecksum), Outcome::Fatal);
    assert_eq!(on_failure(ValidationLevel::Relaxed, Check::IndexChecksum), Outcome::Warn);
    assert_eq!(on_failure(ValidationLevel::Off, Check::CachedChecksum), Outcome::Warn);
    assert_eq!(signature_gate(ValidationLevel::Strict, false).err(), Some(FlavorError::SignatureInvalid));
    assert_eq!(FlavorError::SignatureInvalid.exit_code(), 107);
    assert_eq!(signature_gate(ValidationLevel::Standard, false).unwrap(), Outcome::WarnLoudly);
    assert_eq!(signature_gate(ValidationLevel::Strict, true).unwrap(), Outcome::Skip);
}

#[test]
fn cached_checksum() {
    assert_eq!(format_hex8(0x1a2b), "00001a2b");
    assert_eq!(validate_package_checksum(Some("00001a2b\n"), 0x1a2b, ValidationLevel::Strict), Ok(true));
    assert_eq!(validate_package_checksum(Some("ffffffff"), 0x1a2b, ValidationLevel::Standard), Ok(false));
    assert_eq!(
        validate_package_checksum(Some("ffffffff"), 0x1a2b, ValidationLevel::Strict),
        Err(FlavorError::ChecksumMismatch)
    );
    assert_eq!(validate_package_checksum(None, 0x1a2b, ValidationLevel::Strict), Ok(false));
}

#[test]
fn lock_decisions() {
    assert_eq!(parse_pid(" 1234\n"), Some(1234));
    assert_eq!(parse_pid("+7"), Some(7));
    assert_eq!(parse_pid("12a"), None);
    assert_eq!(parse_pid(""), None);
    assert_eq!(parse_pid("4294967296"), None);
    assert_eq!(parse_pid("4294967295"), Some(u32::MAX));
    assert_eq!(lock_action(false, None, false), LockAction::Create);
    assert_eq!(lock_action(true, Some(5), true), LockAction::LeaveToOwner);
    assert_eq!(lock_action(true, Some(5), false), LockAction::RemoveStaleThenCreate);
    assert_eq!(lock_action(true, None, true), LockAction::RemoveStaleThenCreate);
    assert_eq!(lock_acquired(CreateOutcome::Created), Ok(true));
    assert_eq!(lock_acquired(CreateOutcome::AlreadyExists), Ok(false));
    assert!(lock_acquired(CreateOutcome::Failed).is_err());
    assert_eq!(wait_step(0, 60, true), WaitAction::Sleep);
    assert_eq!(wait_step(5, 60, false), WaitAction::Recheck);
    assert_eq!(wait_step(600, 60, true), WaitAction::TimedOut);
}

#[test]
fn launch_phases() {
    let l = ValidationLevel::Standard;
    let p = launch_step(l, true, LaunchPhase::Verify, LaunchEvent::Verified { signature_valid: true, metadata_checksum_valid: true }).unwrap();
    assert_eq!(p, LaunchPhase::CheckCache);
    assert_eq!(launch_step(l, true, p, LaunchEvent::CacheChecked { valid: true }).unwrap(), LaunchPhase::Execute);
    assert_eq!(launch_step(l, false, p, LaunchEvent::CacheChecked { valid: true }).unwrap(), LaunchPhase::AcquireLock);
    assert_eq!(
        launch_step(l, true, LaunchPhase::AcquireLock, LaunchEvent::LockResult { acquired: false }).unwrap(),
        LaunchPhase::WaitForPeer
    );
    assert_eq!(
        launch_step(l, true, LaunchPhase::WaitForPeer, LaunchEvent::PeerFinished { timed_out: true }).err(),
        Some(FlavorError::LockContention)
    );
    assert_eq!(
        launch_step(l, true, LaunchPhase::Recheck, LaunchEvent::Rechecked { valid: false }).err(),
        Some(FlavorError::CacheInvalidAfterPeer)
    );
    assert_eq!(
        launch_step(ValidationLevel::Strict, true, LaunchPhase::Verify, LaunchEvent::Verified { signature_valid: false, metadata_checksum_valid: true }).err(),
        Some(FlavorError::SignatureInvalid)
    );
    assert_eq!(
        launch_step(l, true, LaunchPhase::Extract, LaunchEvent::CacheChecked { valid: true }).unwrap(),
        LaunchPhase::Extract
    );
}

#[test]
fn shebang_rewrite() {
    let script = b"#!/c/tmp/42/bin/python\nprint(1)\n";
    let out = rewrite_shebang(script, b"/c/tmp/42", b"/c/workenv/app").unwrap();
    assert_eq!(out, b"#!/c/workenv/app/bin/python\nprint(1)\n".to_vec());
    assert!(rewrite_shebang(b"#!/usr/bin/env python\n", b"/c/tmp/42", b"/x").is_none());
    assert!(rewrite_shebang(b"ELF", b"/c", b"/x").is_none());
    assert!(rewrite_shebang(b"#!/c/tmp/42/python", b"/c/tmp/42", b"/x").is_none());
}

#[test]
fn metadata_checksum_mismatch_is_fatal_except_when_off() {
    let bad = LaunchEvent::Verified { signature_valid: true, metadata_checksum_valid: false };
    assert_eq!(
        launch_step(ValidationLevel::Minimal, true, LaunchPhase::Verify, bad).err(),
        Some(FlavorError::ChecksumMismatch)
    );
    assert_eq!(launch_step(ValidationLevel::Off, true, LaunchPhase::Verify, bad).unwrap(), LaunchPhase::CheckCache);
    assert_eq!(ValidationLevel::level_from_lowered("relaxed"), Some(ValidationLevel::Relaxed));
    assert_eq!(ValidationLevel::level_from_lowered("Relaxed"), None);
}
