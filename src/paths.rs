//! The workenv directory scheme: a content root and a hidden metadata root,
//! side by side under `<cache>/workenv/`. Paths are strings joined with `/`.
use crate::text::{chars_of, string_of};
use vstd::prelude::*;
use vstd::string::*;

verus! {

/// `base` joined with the relative path `part`.
pub open spec fn join(base: Seq<char>, part: Seq<char>) -> Seq<char> {
    if base.len() == 0 {
        part
    } else if base.last() == '/' {
        base + part
    } else {
        base + seq!['/'] + part
    }
}

pub fn join_path(base: &str, part: &str) -> (r: String)
    ensures
        r@ == join(base@, part@),
{
    let n = base.unicode_len();
    if n == 0 {
        return String::from_str(part);
    }
    let mut r = String::from_str(base);
    if base.get_char(n - 1) != '/' {
        crate::text::push_char(&mut r, '/');
    }
    r.append(part);
    r
}

/// The characters of a decimal number.
pub open spec fn decimal(n: nat) -> Seq<char>
    decreases n,
{
    if n < 10 {
        seq![((n + 48) as u8) as char]
    } else {
        decimal(n / 10).push((((n % 10) + 48) as u8) as char)
    }
}

/// `n` in decimal.
pub fn format_decimal(n: u32) -> (r: String)
    ensures
        r@ == decimal(n as nat),
    decreases n,
{
    if n < 10 {
        let mut r = String::new();
        crate::text::push_char(&mut r, ((n as u8) + 48) as char);
        assert(r@ =~= decimal(n as nat));
        r
    } else {
        let mut r = format_decimal(n / 10);
        crate::text::push_char(&mut r, (((n % 10) as u8) + 48) as char);
        r
    }
}

/// The last component of a path (trailing `/` ignored), if it has one.
pub open spec fn last_component(p: Seq<char>) -> Seq<char>
    decreases p.len(),
{
    if p.len() == 0 {
        Seq::empty()
    } else if p.last() == '/' {
        last_component(p.drop_last())
    } else {
        last_segment(p)
    }
}

/// The characters after the last `/`.
pub open spec fn last_segment(p: Seq<char>) -> Seq<char>
    decreases p.len(),
{
    if p.len() == 0 || p.last() == '/' {
        Seq::empty()
    } else {
        last_segment(p.drop_last()).push(p.last())
    }
}

/// The workenv name of a package path: its file name without `.psp` or
/// `.pspf`, or "unknown" when it has no file name.
pub open spec fn workenv_name_of(p: Seq<char>) -> Seq<char> {
    let f = last_component(p);
    if f.len() == 0 || f == ".."@ {
        "unknown"@
    } else if f.len() >= 4 && f.subrange(f.len() - 4, f.len() as int) == ".psp"@ {
        f.subrange(0, f.len() - 4)
    } else if f.len() >= 5 && f.subrange(f.len() - 5, f.len() as int) == ".pspf"@ {
        f.subrange(0, f.len() - 5)
    } else {
        f
    }
}

fn last_component_range(v: &Vec<char>) -> (r: (usize, usize))
    ensures
        r.0 <= r.1 <= v@.len(),
        v@.subrange(r.0 as int, r.1 as int) == last_component(v@),
{
    let mut end = v.len();
    assert(v@.subrange(0, end as int) =~= v@);
    while end > 0 && v[end - 1] == '/'
        invariant
            end <= v@.len(),
            last_component(v@) == last_component(v@.subrange(0, end as int)),
        decreases end,
    {
        assert(v@.subrange(0, end as int).drop_last() =~= v@.subrange(0, end - 1));
        end = end - 1;
    }
    let mut start = end;
    while start > 0 && v[start - 1] != '/'
        invariant
            start <= end <= v@.len(),
            last_segment(v@.subrange(0, end as int)) == last_segment(v@.subrange(0, start as int))
                + v@.subrange(start as int, end as int),
        decreases start,
    {
        let ghost s = v@.subrange(0, start as int);
        assert(s.drop_last() =~= v@.subrange(0, start - 1));
        assert(v@.subrange(start - 1, end as int) =~= seq![v@[start - 1]] + v@.subrange(start as int, end as int));
        assert(last_segment(s) == last_segment(s.drop_last()).push(s.last()));
        assert(last_segment(s.drop_last()).push(s.last()) + v@.subrange(start as int, end as int)
            =~= last_segment(s.drop_last()) + v@.subrange(start - 1, end as int));
        start = start - 1;
    }
    let ghost e = v@.subrange(0, end as int);
    assert(last_segment(v@.subrange(0, start as int)) =~= Seq::<char>::empty());
    assert(end > 0 ==> e.last() != '/');
    assert(last_component(e) == last_segment(e));
    (start, end)
}

fn ends_with(v: &Vec<char>, lo: usize, hi: usize, suffix: &str) -> (r: bool)
    requires
        lo <= hi <= v@.len(),
    ensures
        r == (hi - lo >= suffix@.len() && v@.subrange(lo as int, hi as int).subrange(
            (hi - lo) - suffix@.len(),
            (hi - lo) as int,
        ) == suffix@),
{
    let sv = chars_of(suffix);
    if sv.len() > hi - lo {
        return false;
    }
    let m = crate::text::matches_at(v, hi - sv.len(), &sv);
    assert(v@.subrange(lo as int, hi as int).subrange((hi - lo) - sv@.len(), (hi - lo) as int)
        =~= v@.subrange(hi - sv@.len(), hi as int));
    m
}

/// Where a package's workenv lives inside a cache directory.
#[derive(Debug, Clone)]
pub struct WorkenvPaths {
    pub cache_dir: String,
    pub workenv_name: String,
}

impl WorkenvPaths {
    /// The paths of the workenv of `package_path` under `cache_dir`.
    pub fn new(cache_dir: String, package_path: &str) -> (r: WorkenvPaths)
        ensures
            r.cache_dir@ == cache_dir@,
            r.workenv_name@ == workenv_name_of(package_path@),
    {
        let v = chars_of(package_path);
        let (s, e) = last_component_range(&v);
        let ghost f = last_component(package_path@);
        proof {
            reveal_strlit("..");
            reveal_strlit(".psp");
            reveal_strlit(".pspf");
            reveal_strlit("unknown");
        }
        let is_dotdot = e - s == 2 && v[s] == '.' && v[s + 1] == '.';
        assert(is_dotdot == (f == ".."@)) by {
            if f.len() == 2 {
                assert(f[0] == v@[s as int] && f[1] == v@[s + 1]);
                if f == ".."@ {
                    assert(f[0] == ".."@[0]);
                }
                if is_dotdot {
                    assert(f =~= ".."@);
                }
            }
        }
        let name = if e == s || is_dotdot {
            String::from_str("unknown")
        } else if ends_with(&v, s, e, ".psp") {
            assert(f.subrange(0, f.len() - 4) =~= v@.subrange(s as int, e - 4));
            string_of(&v, s, e - 4)
        } else if ends_with(&v, s, e, ".pspf") {
            assert(f.subrange(0, f.len() - 5) =~= v@.subrange(s as int, e - 5));
            string_of(&v, s, e - 5)
        } else {
            string_of(&v, s, e)
        };
        WorkenvPaths { cache_dir, workenv_name: name }
    }

    /// The content root: `<cache>/workenv/<name>`.
    pub fn workenv(&self) -> (r: String)
        ensures
            r@ == join(join(self.cache_dir@, "workenv"@), self.workenv_name@),
    {
        let w = join_path(self.cache_dir.as_str(), "workenv");
        join_path(w.as_str(), self.workenv_name.as_str())
    }

    /// The hidden metadata root: `<cache>/workenv/.<name>.pspf`.
    pub fn metadata(&self) -> (r: String)
        ensures
            r@ == join(join(self.cache_dir@, "workenv"@), "."@ + self.workenv_name@ + ".pspf"@),
    {
        let w = join_path(self.cache_dir.as_str(), "workenv");
        let mut hidden = String::from_str(".");
        hidden.append(self.workenv_name.as_str());
        hidden.append(".pspf");
        join_path(w.as_str(), hidden.as_str())
    }

    pub open spec fn metadata_spec(&self) -> Seq<char> {
        join(join(self.cache_dir@, "workenv"@), "."@ + self.workenv_name@ + ".pspf"@)
    }

    pub fn instance(&self) -> (r: String)
        ensures
            r@ == join(self.metadata_spec(), "instance"@),
    {
        join_path(self.metadata().as_str(), "instance")
    }

    pub fn package_metadata(&self) -> (r: String)
        ensures
            r@ == join(self.metadata_spec(), "package"@),
    {
        join_path(self.metadata().as_str(), "package")
    }

    pub fn tmp(&self) -> (r: String)
        ensures
            r@ == join(self.metadata_spec(), "tmp"@),
    {
        join_path(self.metadata().as_str(), "tmp")
    }

    /// The staging directory of the extraction run by process `pid`.
    pub fn temp_extraction(&self, pid: u32) -> (r: String)
        ensures
            r@ == join(join(self.metadata_spec(), "tmp"@), decimal(pid as nat)),
    {
        let p = format_decimal(pid);
        join_path(self.tmp().as_str(), p.as_str())
    }

    pub fn extract(&self) -> (r: String)
        ensures
            r@ == join(join(self.metadata_spec(), "instance"@), "extract"@),
    {
        join_path(self.instance().as_str(), "extract")
    }

    pub fn log(&self) -> (r: String)
        ensures
            r@ == join(join(self.metadata_spec(), "instance"@), "log"@),
    {
        join_path(self.instance().as_str(), "log")
    }

    /// The PID file of the extractor.
    pub fn lock_file(&self) -> (r: String)
        ensures
            r@ == join(join(join(self.metadata_spec(), "instance"@), "extract"@), "lock"@),
    {
        join_path(self.extract().as_str(), "lock")
    }

    /// The marker of a finished extraction.
    pub fn complete_file(&self) -> (r: String)
        ensures
            r@ == join(join(join(self.metadata_spec(), "instance"@), "extract"@), "complete"@),
    {
        join_path(self.extract().as_str(), "complete")
    }

    /// The index checksum of the last successful extraction.
    pub fn checksum_file(&self) -> (r: String)
        ensures
            r@ == join(join(self.metadata_spec(), "instance"@), "package.checksum"@),
    {
        join_path(self.instance().as_str(), "package.checksum")
    }

    pub fn index_metadata_file(&self) -> (r: String)
        ensures
            r@ == join(join(self.metadata_spec(), "instance"@), "index.json"@),
    {
        join_path(self.instance().as_str(), "index.json")
    }

    pub fn psp_metadata_file(&self) -> (r: String)
        ensures
            r@ == join(join(self.metadata_spec(), "package"@), "psp.json"@),
    {
        join_path(self.package_metadata().as_str(), "psp.json")
    }

    /// The workenv name.
    pub fn name(&self) -> (r: &str)
        ensures
            r@ == self.workenv_name@,
    {
        self.workenv_name.as_str()
    }
}

} // verus!
