use flavor::directories::{DirectorySpec, WorkenvDirectories};
use flavor::metadata::{CacheValidationInfo, PackageInfo};
use flavor::paths::WorkenvPaths;
use flavor::placeholders::substitute_placeholders;
use flavor::workenv::{
    analyze_metadata_format, check_workenv_validity, command_argv, identify_slot_content,
    ContentKind, IndexMetadata, WorkenvValidator,
};

#[test]
fn test_paths_structure() {
    let cache = "/home/user/.cache/flavor".to_string();
    let package = "/tmp/myapp.psp";
    let paths = WorkenvPaths::new(cache, package);

    assert_eq!(paths.name(), "myapp");
    assert_eq!(paths.workenv(), "/home/user/.cache/flavor/workenv/myapp");
    assert_eq!(paths.metadata(), "/home/user/.cache/flavor/workenv/.myapp.pspf");
    assert_eq!(paths.instance(), "/home/user/.cache/flavor/workenv/.myapp.pspf/instance");
    assert_eq!(
        paths.lock_file(),
        "/home/user/.cache/flavor/workenv/.myapp.pspf/instance/extract/lock"
    );
}

#[test]
fn more_paths() {
    let paths = WorkenvPaths::new("/c/".to_string(), "dist/app.pspf");
    assert_eq!(paths.name(), "app");
    assert_eq!(paths.temp_extraction(4321), "/c/workenv/.app.pspf/tmp/4321");
    assert_eq!(paths.complete_file(), "/c/workenv/.app.pspf/instance/extract/complete");
    assert_eq!(paths.checksum_file(), "/c/workenv/.app.pspf/instance/package.checksum");
    assert_eq!(paths.psp_metadata_file(), "/c/workenv/.app.pspf/package/psp.json");
    assert_eq!(WorkenvPaths::new("c".to_string(), "tool").name(), "tool");
    assert_eq!(WorkenvPaths::new("c".to_string(), "/").name(), "unknown");
    assert_eq!(WorkenvPaths::new("c".to_string(), "a/b.psp/").name(), "b");
}

#[test]
fn placeholders_are_substituted() {
    let p = PackageInfo { name: "demo".to_string(), version: "2.1".to_string() };
    assert_eq!(
        substitute_placeholders("{workenv}/bin/{package_name}-{version}", "/w", &p),
        "/w/bin/demo-2.1"
    );
    assert_eq!(command_argv("  /bin/cat   {workenv}/hello.txt ", "/w", &p), vec!["/bin/cat", "/w/hello.txt"]);
    assert!(command_argv("   ", "/w", &p).is_empty());
}

#[test]
fn directory_plans() {
    let dirs = WorkenvDirectories::new("/w".to_string()).with_umask(0o022);
    let specs = vec![
        DirectorySpec::new("private".to_string()),
        DirectorySpec::new("custom".to_string()).with_mode("0755".to_string()),
    ];
    let plan = dirs.create_from_specs(&specs).unwrap();
    assert_eq!(plan[0].path, "/w/private");
    assert_eq!(plan[0].mode, 0o755);
    assert_eq!(plan[1].mode, 0o755);
    let owner_only = WorkenvDirectories::new("/w".to_string());
    assert_eq!(owner_only.create_standard_directories().unwrap().len(), 11);
    assert_eq!(owner_only.create_standard_directories().unwrap()[2].path, "/w/var/log");
    assert_eq!(owner_only.create_standard_directories().unwrap()[0].mode, 0o700);
    assert_eq!(owner_only.create_standard_directories().unwrap()[10].path, "/w/share");
    let bad = vec![DirectorySpec::new("x".to_string()).with_mode("9".to_string())];
    assert!(owner_only.create_from_specs(&bad).is_err());
}

#[test]
fn validator_and_cache_content() {
    let v = WorkenvValidator::new("/w".to_string());
    assert_eq!(v.complete_marker(), "/w/.extraction.complete");
    assert!(v.needs_refresh(false, false));
    assert!(!v.needs_refresh(false, true));
    assert!(v.needs_refresh(true, true));
    assert_eq!(v.check_path("{workenv}/metadata/installed"), "/w/metadata/installed");
    let info = CacheValidationInfo { check_file: "x".to_string(), expected_content: "test-1.0.0".to_string() };
    assert!(check_workenv_validity(Some("test-1.0.0\n"), &info));
    assert!(!check_workenv_validity(Some("test-2.0.0"), &info));
    assert!(!check_workenv_validity(None, &info));
}

#[test]
fn content_kinds_and_snapshot() {
    assert_eq!(analyze_metadata_format(&[0x1f, 0x8b, 8]), ContentKind::Gzip);
    assert_eq!(analyze_metadata_format(b"{}"), ContentKind::Json);
    assert_eq!(analyze_metadata_format(b"ustar"), ContentKind::Tar);
    assert_eq!(identify_slot_content(b"PK\x03\x04"), ContentKind::Zip);
    assert_eq!(identify_slot_content(b"[1]"), ContentKind::Json);
    assert_eq!(identify_slot_content(b"??"), ContentKind::Unknown);
    let mut idx = flavor::index::Index::new();
    idx.index_checksum = 0xABC;
    idx.metadata_checksum[0] = 0xFF;
    let snap = IndexMetadata::from_index(&idx);
    assert_eq!(snap.index_checksum, "00000abc");
    assert!(snap.metadata_checksum.starts_with("ff00"));
    assert_eq!(snap.metadata_checksum.len(), 64);
}
