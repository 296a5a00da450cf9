use flavor::error::FlavorError;
use flavor::metadata::RuntimeEnv;
use flavor::runtime_env::{process_runtime_env, should_preserve};

fn env(pairs: &[(&str, &str)]) -> Vec<(String, String)> {
    pairs.iter().map(|(k, v)| (k.to_string(), v.to_string())).collect()
}

fn get<'a>(e: &'a [(String, String)], k: &str) -> Option<&'a str> {
    e.iter().find(|(n, _)| n == k).map(|(_, v)| v.as_str())
}

#[test]
fn unset_map_set_and_pass() {
    let mut e = env(&[("HOME", "/h"), ("PATH", "/bin"), ("AWS_KEY", "k"), ("OLD", "v"), ("TERM", "x")]);
    let rt = RuntimeEnv {
        unset: Some(vec!["AWS_*".to_string(), "TERM".to_string()]),
        map: Some(vec![("OLD".to_string(), "NEW".to_string())]),
        set: Some(vec![("MODE".to_string(), "prod".to_string())]),
        pass: Some(vec!["HOME".to_string(), "PA*".to_string()]),
    };
    assert_eq!(process_runtime_env(&mut e, &rt), Ok(()));
    assert_eq!(get(&e, "AWS_KEY"), None);
    assert_eq!(get(&e, "TERM"), None);
    assert_eq!(get(&e, "OLD"), None);
    assert_eq!(get(&e, "NEW"), Some("v"));
    assert_eq!(get(&e, "MODE"), Some("prod"));
    assert_eq!(get(&e, "HOME"), Some("/h"));
}

#[test]
fn unset_everything_but_preserved() {
    let mut e = env(&[("HOME", "/h"), ("PATH", "/bin"), ("X", "1")]);
    let rt = RuntimeEnv {
        unset: Some(vec!["*".to_string()]),
        map: None,
        set: None,
        pass: Some(vec!["PATH".to_string(), "NEEDED".to_string()]),
    };
    let r = process_runtime_env(&mut e, &rt);
    assert_eq!(r, Err(FlavorError::MissingRequiredEnv(vec!["NEEDED".to_string()])));
    assert_eq!(e, env(&[("PATH", "/bin")]));
    assert!(should_preserve(&vec!["PA?H".to_string()], "PATH"));
    assert!(!should_preserve(&vec!["PA?H".to_string()], "HOME"));
}
