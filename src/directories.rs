//! The directories a workenv gets, and the modes they are created with.
use crate::error::FlavorError;
use crate::paths::{join, join_path};
use crate::slot_processor::{octal_of, parse_octal_mode};
use vstd::prelude::*;

verus! {

/// A directory below the workenv, with an optional octal mode string.
#[derive(Debug, Clone)]
pub struct DirectorySpec {
    pub path: String,
    pub mode: Option<String>,
}

impl DirectorySpec {
    pub fn new(path: String) -> (r: DirectorySpec)
        ensures
            r.path@ == path@,
            r.mode is None,
    {
        DirectorySpec { path, mode: None }
    }

    pub fn with_mode(self, mode: String) -> (r: DirectorySpec)
        ensures
            r.path@ == self.path@,
            r.mode is Some && r.mode->Some_0@ == mode@,
    {
        DirectorySpec { path: self.path, mode: Some(mode) }
    }
}

/// Creates directories inside a workenv; without an explicit mode a
/// directory gets 0777 with the umask's bits cleared.
#[derive(Debug, Clone)]
pub struct WorkenvDirectories {
    pub workenv_path: String,
    pub umask: u32,
}

/// A directory to create: its full path and mode.
#[derive(Debug, Clone)]
pub struct PlannedDirectory {
    pub path: String,
    pub mode: u32,
}

/// The directories of the standard workenv layout, in creation order.
pub open spec fn standard_dirs() -> Seq<Seq<char>> {
    seq![
        "tmp"@, "var"@, "var/log"@, "var/cache"@, "var/run"@, "etc"@, "home"@, "state"@, "bin"@,
        "lib"@, "share"@
    ]
}

impl WorkenvDirectories {
    /// Directories under `workenv_path`, umask 077 (owner only).
    pub fn new(workenv_path: String) -> (r: WorkenvDirectories)
        ensures
            r.workenv_path@ == workenv_path@,
            r.umask == 0o077,
    {
        WorkenvDirectories { workenv_path, umask: 0o077 }
    }

    pub fn with_umask(self, umask: u32) -> (r: WorkenvDirectories)
        ensures
            r.workenv_path@ == self.workenv_path@,
            r.umask == umask,
    {
        WorkenvDirectories { workenv_path: self.workenv_path, umask }
    }

    /// The mode a directory without an explicit one gets.
    pub open spec fn default_mode(&self) -> u32 {
        0o777u32 & !self.umask
    }

    /// The path and mode of each spec, in order; an unparsable mode fails the
    /// whole list.
    pub fn create_from_specs(&self, specs: &Vec<DirectorySpec>) -> (r: Result<Vec<PlannedDirectory>, FlavorError>)
        ensures
            r is Ok <==> forall|i: int|
                0 <= i < specs@.len() ==> (#[trigger] specs@[i]).mode is None || octal_of(
                    specs@[i].mode->Some_0@,
                    u32::MAX as int,
                ) is Some,
            r is Ok ==> r->Ok_0@.len() == specs@.len() && forall|i: int|
                0 <= i < specs@.len() ==> {
                    &&& (#[trigger] r->Ok_0@[i]).path@ == join(self.workenv_path@, specs@[i].path@)
                    &&& r->Ok_0@[i].mode == match specs@[i].mode {
                        Some(m) => octal_of(m@, u32::MAX as int)->Some_0 as u32,
                        None => self.default_mode(),
                    }
                },
    {
        let mut out: Vec<PlannedDirectory> = Vec::new();
        let mut i: usize = 0;
        while i < specs.len()
            invariant
                i <= specs@.len(),
                out@.len() == i,
                forall|k: int|
                    0 <= k < i ==> (#[trigger] specs@[k]).mode is None || octal_of(
                        specs@[k].mode->Some_0@,
                        u32::MAX as int,
                    ) is Some,
                forall|k: int|
                    0 <= k < i ==> {
                        &&& (#[trigger] out@[k]).path@ == join(self.workenv_path@, specs@[k].path@)
                        &&& out@[k].mode == match specs@[k].mode {
                            Some(m) => octal_of(m@, u32::MAX as int)->Some_0 as u32,
                            None => self.default_mode(),
                        }
                    },
            decreases specs@.len() - i,
        {
            let spec = &specs[i];
            let mode = match &spec.mode {
                Some(m) => match parse_octal_mode(m.as_str()) {
                    Ok(v) => v,
                    Err(e) => {
                        return Err(e);
                    },
                },
                None => 0o777 & !self.umask,
            };
            let path = join_path(self.workenv_path.as_str(), spec.path.as_str());
            out.push(PlannedDirectory { path, mode });
            i = i + 1;
        }
        Ok(out)
    }

    /// The standard workenv layout: tmp, var (log, cache, run), etc, home,
    /// state, bin, lib and share, with the default mode.
    pub fn create_standard_directories(&self) -> (r: Result<Vec<PlannedDirectory>, FlavorError>)
        ensures
            r is Ok,
            r->Ok_0@.len() == 11,
            forall|i: int| 0 <= i < 11 ==> (#[trigger] r->Ok_0@[i]).mode == self.default_mode()
                && r->Ok_0@[i].path@ == join(self.workenv_path@, standard_dirs()[i]),
    {
        let mut specs: Vec<DirectorySpec> = Vec::new();
        specs.push(DirectorySpec::new(String::from_str("tmp")));
        specs.push(DirectorySpec::new(String::from_str("var")));
        specs.push(DirectorySpec::new(String::from_str("var/log")));
        specs.push(DirectorySpec::new(String::from_str("var/cache")));
        specs.push(DirectorySpec::new(String::from_str("var/run")));
        specs.push(DirectorySpec::new(String::from_str("etc")));
        specs.push(DirectorySpec::new(String::from_str("home")));
        specs.push(DirectorySpec::new(String::from_str("state")));
        specs.push(DirectorySpec::new(String::from_str("bin")));
        specs.push(DirectorySpec::new(String::from_str("lib")));
        specs.push(DirectorySpec::new(String::from_str("share")));
        assert forall|i: int| 0 <= i < 11 implies (#[trigger] specs@[i]).path@ == standard_dirs()[i] && specs@[i].mode is None by {}
        self.create_from_specs(&specs)
    }
}

} // verus!
