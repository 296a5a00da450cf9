//! The setup sub-language: what each declarative command asks for, with
//! placeholders substituted. Running the resulting action is the caller's.
use crate::error::FlavorError;
use crate::metadata::PackageInfo;
use crate::placeholders::{substitute_placeholders, substituted};
use crate::slot_processor::{parse_radix8, radix8_of};
use crate::text::str_equal;
use crate::workenv::{command_argv, words};
use vstd::prelude::*;

verus! {

/// One setup step, ready to perform.
#[derive(Debug)]
pub enum SetupAction {
    /// Run this argument vector (nothing when it is empty).
    Execute { argv: Vec<String> },
    /// For each path matching the glob `pattern`, run `command <path>`.
    Enumerate { pattern: String, command: String },
    /// Create the parent directories of `path`, then write `content`.
    WriteFile { path: String, content: String },
    /// Give the files that `pattern` names the mode `mode`.
    Chmod { pattern: String, mode: u32 },
}

/// The mode of a `chmod` step: its octal `mode` (700 when absent or unreadable).
pub open spec fn chmod_mode(mode: Option<Seq<char>>) -> u32 {
    let m = match mode {
        Some(m) => m,
        None => "700"@,
    };
    match radix8_of(m, u32::MAX as int) {
        Some(v) => v as u32,
        None => 0o700,
    }
}

/// Decide one setup command from its fields: `kind` is its `type`;
/// `enum_path` and `enum_pattern` are the fields of its `enumerate` object.
/// A missing type, an unknown type, or a missing required field fails.
pub fn plan_setup_command(
    kind: Option<&str>,
    command: Option<&str>,
    path: Option<&str>,
    content: Option<&str>,
    mode: Option<&str>,
    enum_path: Option<&str>,
    enum_pattern: Option<&str>,
    workenv: &str,
    package: &PackageInfo,
) -> (r: Result<SetupAction, FlavorError>)
    ensures
        ({
            let subst = |t: Seq<char>| substituted(t, workenv@, package.name@, package.version@);
            match kind {
                None => r is Err && r->Err_0 is SetupFailed,
                Some(k) => if k@ == "execute"@ {
                    match command {
                        None => r is Err && r->Err_0 is SetupFailed,
                        Some(c) => r is Ok && (r->Ok_0 matches SetupAction::Execute { argv }
                            && argv@.len() == words(subst(c@)).len() && forall|i: int|
                            0 <= i < argv@.len() ==> #[trigger] argv@[i]@ == words(subst(c@))[i]),
                    }
                } else if k@ == "enumerate_and_execute"@ {
                    if command is None || enum_path is None || enum_pattern is None {
                        r is Err && r->Err_0 is SetupFailed
                    } else {
                        r is Ok && (r->Ok_0 matches SetupAction::Enumerate { pattern, command: c }
                            && pattern@ == subst(enum_path->Some_0@) + "/"@ + enum_pattern->Some_0@
                            && c@ == command->Some_0@)
                    }
                } else if k@ == "write_file"@ {
                    if path is None || content is None {
                        r is Err && r->Err_0 is SetupFailed
                    } else {
                        r is Ok && (r->Ok_0 matches SetupAction::WriteFile { path: p, content: c }
                            && p@ == subst(path->Some_0@) && c@ == subst(content->Some_0@))
                    }
                } else if k@ == "chmod"@ {
                    match path {
                        None => r is Err && r->Err_0 is SetupFailed,
                        Some(p) => r is Ok && (r->Ok_0 matches SetupAction::Chmod { pattern, mode: m }
                            && pattern@ == subst(p@) && m == chmod_mode(
                            match mode {
                                Some(x) => Some(x@),
                                None => None,
                            },
                        )),
                    }
                } else {
                    r is Err && r->Err_0 is SetupFailed
                }
            }
        }),
{
    proof {
        reveal_strlit("700");
        reveal_strlit("/");
    }
    let k = match kind {
        Some(k) => k,
        None => {
            return Err(FlavorError::SetupFailed("setup command missing 'type'".to_string()));
        },
    };
    if str_equal(k, "execute") {
        match command {
            Some(c) => Ok(SetupAction::Execute { argv: command_argv(c, workenv, package) }),
            None => Err(FlavorError::SetupFailed("execute command missing 'command'".to_string())),
        }
    } else if str_equal(k, "enumerate_and_execute") {
        match (command, enum_path, enum_pattern) {
            (Some(c), Some(p), Some(pat)) => {
                let mut pattern = substitute_placeholders(p, workenv, package);
                pattern.append("/");
                pattern.append(pat);
                Ok(SetupAction::Enumerate { pattern, command: String::from_str(c) })
            },
            _ => Err(FlavorError::SetupFailed("enumerate command missing a field".to_string())),
        }
    } else if str_equal(k, "write_file") {
        match (path, content) {
            (Some(p), Some(c)) => Ok(
                SetupAction::WriteFile {
                    path: substitute_placeholders(p, workenv, package),
                    content: substitute_placeholders(c, workenv, package),
                },
            ),
            _ => Err(FlavorError::SetupFailed("write_file command missing a field".to_string())),
        }
    } else if str_equal(k, "chmod") {
        match path {
            Some(p) => {
                let m = match mode {
                    Some(x) => x,
                    None => "700",
                };
                let value = match parse_radix8(m, 0xFFFF_FFFF) {
                    Some(v) => v,
                    None => 0o700,
                };
                Ok(SetupAction::Chmod { pattern: substitute_placeholders(p, workenv, package), mode: value })
            },
            None => Err(FlavorError::SetupFailed("chmod command missing 'path'".to_string())),
        }
    } else {
        Err(FlavorError::SetupFailed("unknown setup command type".to_string()))
    }
}

} // verus!
