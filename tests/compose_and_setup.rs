use flavor::builder::{process_slots, slot_metadata};
use flavor::error::FlavorError;
use flavor::metadata::{ManifestSlot, PackageInfo, RuntimeEnv};
use flavor::runtime_env::compose_env;
use flavor::setup::{plan_setup_command, SetupAction};

fn env(pairs: &[(&str, &str)]) -> Vec<(String, String)> {
    pairs.iter().map(|(k, v)| (k.to_string(), v.to_string())).collect()
}

fn get<'a>(e: &'a [(String, String)], k: &str) -> Option<&'a str> {
    e.iter().find(|(n, _)| n == k).map(|(_, v)| v.as_str())
}

fn pkg() -> PackageInfo {
    PackageInfo { name: "demo".to_string(), version: "1.2".to_string() }
}

#[test]
fn composed_environment() {
    let inherited = env(&[("PATH", "/usr/bin"), ("FLAVOR_CACHE", "/host")]);
    let r = compose_env(
        inherited,
        Some("/home/u/.cache/flavor/workenv"),
        None,
        &env(&[("FLAVOR_CACHE", "/other"), ("DATA", "{workenv}/data")]),
        &env(&[("APP", "{package_name}-{version}")]),
        "/w",
        &pkg(),
    )
    .unwrap();
    assert_eq!(get(&r, "FLAVOR_CACHE"), Some("/host"));
    assert_eq!(get(&r, "DATA"), Some("/w/data"));
    assert_eq!(get(&r, "APP"), Some("demo-1.2"));
    assert_eq!(get(&r, "FLAVOR_WORKENV"), Some("/w"));
    assert_eq!(get(&r, "PATH"), Some("/w/bin:/usr/bin"));
}

#[test]
fn composed_environment_defaults_and_failures() {
    let r = compose_env(vec![], Some("/c"), None, &vec![], &vec![], "/w", &pkg()).unwrap();
    assert_eq!(get(&r, "FLAVOR_CACHE"), Some("/c"));
    assert_eq!(get(&r, "PATH"), Some("/w/bin"));
    let rt = RuntimeEnv { unset: None, map: None, set: None, pass: Some(vec!["NEEDED".to_string()]) };
    assert_eq!(
        compose_env(vec![], None, Some(&rt), &vec![], &vec![], "/w", &pkg()).err(),
        Some(FlavorError::MissingRequiredEnv(vec!["NEEDED".to_string()]))
    );
}

#[test]
fn setup_commands_are_planned() {
    let p = pkg();
    match plan_setup_command(Some("execute"), Some("echo {version}"), None, None, None, None, None, "/w", &p).unwrap() {
        SetupAction::Execute { argv } => assert_eq!(argv, vec!["echo", "1.2"]),
        other => panic!("{other:?}"),
    }
    match plan_setup_command(Some("write_file"), None, Some("{workenv}/a"), Some("{package_name}"), None, None, None, "/w", &p).unwrap() {
        SetupAction::WriteFile { path, content } => {
            assert_eq!(path, "/w/a");
            assert_eq!(content, "demo");
        }
        other => panic!("{other:?}"),
    }
    match plan_setup_command(Some("chmod"), None, Some("{workenv}/bin/*"), None, None, None, None, "/w", &p).unwrap() {
        SetupAction::Chmod { pattern, mode } => {
            assert_eq!(pattern, "/w/bin/*");
            assert_eq!(mode, 0o700);
        }
        other => panic!("{other:?}"),
    }
    match plan_setup_command(Some("chmod"), None, Some("x"), None, Some("755"), None, None, "/w", &p).unwrap() {
        SetupAction::Chmod { mode, .. } => assert_eq!(mode, 0o755),
        other => panic!("{other:?}"),
    }
    match plan_setup_command(Some("enumerate_and_execute"), Some("run"), None, None, None, Some("{workenv}/lib"), Some("*.so"), "/w", &p).unwrap() {
        SetupAction::Enumerate { pattern, command } => {
            assert_eq!(pattern, "/w/lib/*.so");
            assert_eq!(command, "run");
        }
        other => panic!("{other:?}"),
    }
    assert!(matches!(plan_setup_command(None, Some("x"), None, None, None, None, None, "/w", &p), Err(FlavorError::SetupFailed(_))));
    assert!(matches!(plan_setup_command(Some("execute"), None, None, None, None, None, None, "/w", &p), Err(FlavorError::SetupFailed(_))));
    assert!(matches!(plan_setup_command(Some("rm"), Some("x"), None, None, None, None, None, "/w", &p), Err(FlavorError::SetupFailed(_))));
}

#[test]
fn slot_metadata_records() {
    let slots = vec![
        ManifestSlot {
            slot: None,
            id: "me".to_string(),
            source: "$SELF".to_string(),
            target: "self".to_string(),
            operations: "gzip".to_string(),
            purpose: "code".to_string(),
            lifecycle: "runtime".to_string(),
            permissions: None,
            resolution: None,
        },
        ManifestSlot {
            slot: Some(1),
            id: "data".to_string(),
            source: "d".to_string(),
            target: "d".to_string(),
            operations: "gzip".to_string(),
            purpose: "data".to_string(),
            lifecycle: "init".to_string(),
            permissions: Some("0755".to_string()),
            resolution: Some("runtime".to_string()),
        },
    ];
    let payloads = vec![vec![], vec![1, 2, 3, 4]];
    let p = process_slots(&slots, &payloads).unwrap();
    let m = slot_metadata(&slots, &p);
    assert_eq!(m[0].index, 0);
    assert_eq!(m[0].operations, "");
    assert_eq!(m[0].self_ref, Some(true));
    assert_eq!(m[0].permissions.as_deref(), Some("0600"));
    assert_eq!(m[0].resolution.as_deref(), Some("build"));
    assert_eq!(m[1].index, 1);
    assert_eq!(m[1].size, 4);
    assert_eq!(m[1].operations, "gzip");
    assert!(m[1].checksum.starts_with("sha256:"));
    assert_eq!(m[1].permissions.as_deref(), Some("0755"));
    assert_eq!(m[1].self_ref, None);
}
