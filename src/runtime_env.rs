//! The `runtime.env` transformations applied to the inherited environment:
//! a preserve set from `pass`, then `unset`, `map` and `set`, then a check
//! that every exact `pass` name is present. The environment is a list of
//! (name, value) pairs; a name's value is its first entry.
use crate::error::FlavorError;
use crate::metadata::{PackageInfo, RuntimeEnv};
use crate::placeholders::{substitute_placeholders, substituted};
use crate::text::{contains_char, str_equal};
use vstd::prelude::*;

verus! {

/// Whether `pattern` is a valid glob pattern.
pub uninterp spec fn glob_valid(pattern: Seq<char>) -> bool;

/// Whether the glob `pattern` matches `text`.
pub uninterp spec fn glob_matches(pattern: Seq<char>, text: Seq<char>) -> bool;

/// Relies on `glob::Pattern::new`: whether the pattern compiles.
#[verifier::external_body]
fn glob_compiles(pattern: &str) -> (r: bool)
    ensures
        r == glob_valid(pattern@),
{
    glob::Pattern::new(pattern).is_ok()
}

/// Relies on `glob::Pattern::new` and `Pattern::matches`: whether the
/// compiled pattern matches `text` (false for a pattern that does not compile).
#[verifier::external_body]
fn glob_match(pattern: &str, text: &str) -> (r: bool)
    ensures
        r == (glob_valid(pattern@) && glob_matches(pattern@, text@)),
{
    match glob::Pattern::new(pattern) {
        Ok(p) => p.matches(text),
        Err(_) => false,
    }
}

/// The value of `key`: that of its first entry.
pub open spec fn lookup(env: Seq<(String, String)>, key: Seq<char>) -> Option<Seq<char>>
    decreases env.len(),
{
    if env.len() == 0 {
        None
    } else if env[0].0@ == key {
        Some(env[0].1@)
    } else {
        lookup(env.drop_first(), key)
    }
}

/// The environment as a map from names to values.
pub open spec fn env_view(env: Seq<(String, String)>) -> Map<Seq<char>, Seq<char>> {
    Map::new(|k: Seq<char>| lookup(env, k) is Some, |k: Seq<char>| lookup(env, k)->Some_0)
}

proof fn lemma_lookup_push(s: Seq<(String, String)>, e: (String, String), k: Seq<char>)
    ensures
        lookup(s.push(e), k) == match lookup(s, k) {
            Some(v) => Some(v),
            None => if e.0@ == k {
                Some(e.1@)
            } else {
                None
            },
        },
    decreases s.len(),
{
    if s.len() > 0 {
        assert(s.push(e).drop_first() =~= s.drop_first().push(e));
        assert(s.push(e)[0] == s[0]);
        lemma_lookup_push(s.drop_first(), e, k);
    } else {
        reveal_with_fuel(lookup, 2);
        assert(s.push(e).drop_first() =~= Seq::<(String, String)>::empty());
        assert(s.push(e)[0] == e);
    }
}

/// Remove every entry whose name `name_dropped` marks; `dropped[i]` is that
/// mark for entry `i`.
fn remove_marked(env: &mut Vec<(String, String)>, dropped: &Vec<bool>, name_dropped: Ghost<spec_fn(Seq<char>) -> bool>)
    requires
        dropped@.len() == old(env)@.len(),
        forall|i: int| 0 <= i < dropped@.len() ==> #[trigger] dropped@[i] == (name_dropped@)(old(env)@[i].0@),
    ensures
        forall|k: Seq<char>| #[trigger] lookup(final(env)@, k) == if (name_dropped@)(k) {
            None
        } else {
            lookup(old(env)@, k)
        },
{
    let ghost src = env@;
    let ghost p = name_dropped@;
    let mut out: Vec<(String, String)> = Vec::new();
    let n = env.len();
    let mut i: usize = 0;
    while i < n
        invariant
            n == src.len(),
            dropped@.len() == n,
            env@ == src,
            forall|j: int| 0 <= j < n ==> #[trigger] dropped@[j] == p(src[j].0@),
            i <= n,
            forall|k: Seq<char>| #[trigger] lookup(out@, k) == if p(k) {
                None
            } else {
                lookup(src.subrange(0, i as int), k)
            },
        decreases n - i,
    {
        let ghost pre = src.subrange(0, i as int);
        assert(src.subrange(0, i + 1) =~= pre.push(src[i as int]));
        let ghost before = out@;
        if !dropped[i] {
            let e = (env[i].0.clone(), env[i].1.clone());
            out.push(e);
            proof {
                assert forall|k: Seq<char>| #[trigger] lookup(out@, k) == if p(k) {
                    None
                } else {
                    lookup(src.subrange(0, i + 1), k)
                } by {
                    lemma_lookup_push(before, e, k);
                    lemma_lookup_push(pre, src[i as int], k);
                }
            }
        } else {
            proof {
                assert forall|k: Seq<char>| #[trigger] lookup(out@, k) == if p(k) {
                    None
                } else {
                    lookup(src.subrange(0, i + 1), k)
                } by {
                    lemma_lookup_push(pre, src[i as int], k);
                }
            }
        }
        i = i + 1;
    }
    assert(src.subrange(0, n as int) =~= src);
    *env = out;
}

/// Set `key` to `value`: its old entries go, a new one comes last.
fn insert_env(env: &mut Vec<(String, String)>, key: &str, value: &str)
    ensures
        forall|k: Seq<char>| #[trigger] lookup(final(env)@, k) == if k == key@ {
            Some(value@)
        } else {
            lookup(old(env)@, k)
        },
{
    let ghost src = env@;
    let mut dropped: Vec<bool> = Vec::new();
    let mut i: usize = 0;
    while i < env.len()
        invariant
            env@ == src,
            i <= src.len(),
            dropped@.len() == i,
            forall|j: int| 0 <= j < i ==> #[trigger] dropped@[j] == (src[j].0@ == key@),
        decreases src.len() - i,
    {
        dropped.push(str_equal(env[i].0.as_str(), key));
        i = i + 1;
    }
    let ghost same = |k: Seq<char>| k == key@;
    remove_marked(env, &dropped, Ghost(same));
    let ghost mid = env@;
    let e = (String::from_str(key), String::from_str(value));
    env.push(e);
    proof {
        assert forall|k: Seq<char>| #[trigger] lookup(env@, k) == if k == key@ {
            Some(value@)
        } else {
            lookup(src, k)
        } by {
            lemma_lookup_push(mid, e, k);
        }
    }
}

/// A pattern with `*` or `?` is a glob.
pub open spec fn is_globby(p: Seq<char>) -> bool {
    p.contains('*') || p.contains('?')
}

/// A `pass` pattern compared exactly: no glob characters, or a glob that
/// does not compile.
pub open spec fn is_exact(p: Seq<char>) -> bool {
    !is_globby(p) || !glob_valid(p)
}

/// Whether some `pass` pattern keeps the name `k`.
pub open spec fn preserved(pass: Seq<String>, k: Seq<char>) -> bool {
    exists|i: int|
        0 <= i < pass.len() && ((is_exact(#[trigger] pass[i]@) && pass[i]@ == k) || (!is_exact(
            pass[i]@,
        ) && glob_matches(pass[i]@, k)))
}

fn is_globby_str(p: &str) -> (r: bool)
    ensures
        r == is_globby(p@),
{
    contains_char(p, '*') || contains_char(p, '?')
}

/// Whether a `pass` pattern keeps the name `key`.
pub fn should_preserve(pass: &Vec<String>, key: &str) -> (r: bool)
    ensures
        r == preserved(pass@, key@),
{
    let mut i: usize = 0;
    while i < pass.len()
        invariant
            i <= pass@.len(),
            forall|j: int|
                0 <= j < i ==> !((is_exact(#[trigger] pass@[j]@) && pass@[j]@ == key@) || (!is_exact(
                    pass@[j]@,
                ) && glob_matches(pass@[j]@, key@))),
        decreases pass@.len() - i,
    {
        let p = pass[i].as_str();
        let exact = !is_globby_str(p) || !glob_compiles(p);
        if exact {
            if str_equal(p, key) {
                return true;
            }
        } else if glob_match(p, key) {
            return true;
        }
        i = i + 1;
    }
    false
}

/// `m` without the names `drop` marks.
pub open spec fn without(m: Map<Seq<char>, Seq<char>>, drop: spec_fn(Seq<char>) -> bool) -> Map<Seq<char>, Seq<char>> {
    Map::new(|k: Seq<char>| m.dom().contains(k) && !drop(k), |k: Seq<char>| m[k])
}

/// The names one `unset` pattern removes (preserved names never).
pub open spec fn unset_drops(pass: Seq<String>, p: Seq<char>, k: Seq<char>) -> bool {
    !preserved(pass, k) && (if p == "*"@ {
        true
    } else if is_globby(p) {
        glob_matches(p, k)
    } else {
        k == p
    })
}

/// Apply `unset` patterns in order; an invalid glob stops the rest.
pub open spec fn unset_from(m: Map<Seq<char>, Seq<char>>, pass: Seq<String>, pats: Seq<String>) -> Map<Seq<char>, Seq<char>>
    decreases pats.len(),
{
    if pats.len() == 0 {
        m
    } else {
        let p = pats[0]@;
        if p != "*"@ && is_globby(p) && !glob_valid(p) {
            m
        } else {
            unset_from(without(m, |k: Seq<char>| unset_drops(pass, p, k)), pass, pats.drop_first())
        }
    }
}

/// Apply `map` renames in order: a name that is not preserved and is present
/// moves to its new name.
pub open spec fn map_from(m: Map<Seq<char>, Seq<char>>, pass: Seq<String>, pairs: Seq<(String, String)>) -> Map<Seq<char>, Seq<char>>
    decreases pairs.len(),
{
    if pairs.len() == 0 {
        m
    } else {
        let o = pairs[0].0@;
        let n = pairs[0].1@;
        let next = if !preserved(pass, o) && m.dom().contains(o) {
            m.remove(o).insert(n, m[o])
        } else {
            m
        };
        map_from(next, pass, pairs.drop_first())
    }
}

/// Apply `set` assignments in order.
pub open spec fn set_from(m: Map<Seq<char>, Seq<char>>, pairs: Seq<(String, String)>) -> Map<Seq<char>, Seq<char>>
    decreases pairs.len(),
{
    if pairs.len() == 0 {
        m
    } else {
        set_from(m.insert(pairs[0].0@, pairs[0].1@), pairs.drop_first())
    }
}

/// The exact `pass` names that `m` lacks, in order.
pub open spec fn missing_from(pass: Seq<String>, m: Map<Seq<char>, Seq<char>>) -> Seq<Seq<char>>
    decreases pass.len(),
{
    if pass.len() == 0 {
        Seq::empty()
    } else {
        let rest = missing_from(pass.drop_last(), m);
        let p = pass.last()@;
        if is_exact(p) && !m.dom().contains(p) {
            rest.push(p)
        } else {
            rest
        }
    }
}

fn unset_stage(env: &mut Vec<(String, String)>, pass: &Vec<String>, pats: &Vec<String>)
    ensures
        env_view(final(env)@) == unset_from(env_view(old(env)@), pass@, pats@),
{
    let ghost m0 = env_view(env@);
    let mut i: usize = 0;
    assert(pats@.subrange(0, pats@.len() as int) =~= pats@);
    while i < pats.len()
        invariant
            i <= pats@.len(),
            m0 == env_view(old(env)@),
            unset_from(m0, pass@, pats@) == unset_from(env_view(env@), pass@, pats@.subrange(i as int, pats@.len() as int)),
        decreases pats@.len() - i,
    {
        let ghost rest = pats@.subrange(i as int, pats@.len() as int);
        assert(rest.drop_first() =~= pats@.subrange(i + 1, pats@.len() as int));
        let p = pats[i].as_str();
        proof {
            reveal_strlit("*");
        }
        let all = str_equal(p, "*");
        let globby = is_globby_str(p);
        if !all && globby && !glob_compiles(p) {
            assert(unset_from(env_view(env@), pass@, rest) == env_view(env@));
            let ghost cur = env@;
            return;
        }
        let ghost before = env@;
        let mut dropped: Vec<bool> = Vec::new();
        let mut j: usize = 0;
        while j < env.len()
            invariant
                env@ == before,
                j <= before.len(),
                dropped@.len() == j,
                p@ == pats@[i as int]@,
                all == (p@ == "*"@),
                globby == is_globby(p@),
                globby && !all ==> glob_valid(p@),
                forall|q: int| 0 <= q < j ==> #[trigger] dropped@[q] == unset_drops(pass@, p@, before[q].0@),
            decreases before.len() - j,
        {
            let name = env[j].0.as_str();
            let matched = if all {
                true
            } else if globby {
                glob_match(p, name)
            } else {
                str_equal(name, p)
            };
            let d = matched && !should_preserve(pass, name);
            dropped.push(d);
            j = j + 1;
        }
        let ghost pred = |k: Seq<char>| unset_drops(pass@, p@, k);
        remove_marked(env, &dropped, Ghost(pred));
        proof {
            assert(env_view(env@) =~= without(env_view(before), pred));
        }
        i = i + 1;
    }
    assert(pats@.subrange(pats@.len() as int, pats@.len() as int) =~= Seq::<String>::empty());
}

fn value_of(env: &Vec<(String, String)>, key: &str) -> (r: Option<String>)
    ensures
        match lookup(env@, key@) {
            Some(v) => r is Some && r->Some_0@ == v,
            None => r is None,
        },
{
    let mut i: usize = 0;
    assert(env@.subrange(0, env@.len() as int) =~= env@);
    while i < env.len()
        invariant
            i <= env@.len(),
            lookup(env@, key@) == lookup(env@.subrange(i as int, env@.len() as int), key@),
        decreases env@.len() - i,
    {
        let ghost rest = env@.subrange(i as int, env@.len() as int);
        assert(rest.drop_first() =~= env@.subrange(i + 1, env@.len() as int));
        if str_equal(env[i].0.as_str(), key) {
            return Some(env[i].1.clone());
        }
        i = i + 1;
    }
    None
}

proof fn lemma_view_insert(before: Seq<(String, String)>, after: Seq<(String, String)>, key: Seq<char>, value: Seq<char>)
    requires
        forall|k: Seq<char>| #[trigger] lookup(after, k) == if k == key {
            Some(value)
        } else {
            lookup(before, k)
        },
    ensures
        env_view(after) == env_view(before).insert(key, value),
{
    assert(env_view(after) =~= env_view(before).insert(key, value));
}

fn map_stage(env: &mut Vec<(String, String)>, pass: &Vec<String>, pairs: &Vec<(String, String)>)
    ensures
        env_view(final(env)@) == map_from(env_view(old(env)@), pass@, pairs@),
{
    let mut i: usize = 0;
    assert(pairs@.subrange(0, pairs@.len() as int) =~= pairs@);
    while i < pairs.len()
        invariant
            i <= pairs@.len(),
            map_from(env_view(old(env)@), pass@, pairs@) == map_from(env_view(env@), pass@, pairs@.subrange(i as int, pairs@.len() as int)),
        decreases pairs@.len() - i,
    {
        let ghost rest = pairs@.subrange(i as int, pairs@.len() as int);
        assert(rest.drop_first() =~= pairs@.subrange(i + 1, pairs@.len() as int));
        let old_name = pairs[i].0.as_str();
        let new_name = pairs[i].1.as_str();
        let ghost before = env@;
        if !should_preserve(pass, old_name) {
            match value_of(env, old_name) {
                Some(v) => {
                    let mut dropped: Vec<bool> = Vec::new();
                    let mut j: usize = 0;
                    while j < env.len()
                        invariant
                            env@ == before,
                            j <= before.len(),
                            dropped@.len() == j,
                            forall|q: int| 0 <= q < j ==> #[trigger] dropped@[q] == (before[q].0@ == old_name@),
                        decreases before.len() - j,
                    {
                        dropped.push(str_equal(env[j].0.as_str(), old_name));
                        j = j + 1;
                    }
                    let ghost same = |k: Seq<char>| k == old_name@;
                    remove_marked(env, &dropped, Ghost(same));
                    let ghost mid = env@;
                    assert(env_view(mid) =~= env_view(before).remove(old_name@));
                    insert_env(env, new_name, v.as_str());
                    proof {
                        lemma_view_insert(mid, env@, new_name@, v@);
                    }
                },
                None => {},
            }
        }
        i = i + 1;
    }
    assert(pairs@.subrange(pairs@.len() as int, pairs@.len() as int) =~= Seq::<(String, String)>::empty());
}

fn set_stage(env: &mut Vec<(String, String)>, pairs: &Vec<(String, String)>)
    ensures
        env_view(final(env)@) == set_from(env_view(old(env)@), pairs@),
{
    let mut i: usize = 0;
    assert(pairs@.subrange(0, pairs@.len() as int) =~= pairs@);
    while i < pairs.len()
        invariant
            i <= pairs@.len(),
            set_from(env_view(old(env)@), pairs@) == set_from(env_view(env@), pairs@.subrange(i as int, pairs@.len() as int)),
        decreases pairs@.len() - i,
    {
        let ghost rest = pairs@.subrange(i as int, pairs@.len() as int);
        assert(rest.drop_first() =~= pairs@.subrange(i + 1, pairs@.len() as int));
        let ghost before = env@;
        insert_env(env, pairs[i].0.as_str(), pairs[i].1.as_str());
        proof {
            lemma_view_insert(before, env@, pairs@[i as int].0@, pairs@[i as int].1@);
        }
        i = i + 1;
    }
    assert(pairs@.subrange(pairs@.len() as int, pairs@.len() as int) =~= Seq::<(String, String)>::empty());
}

/// The exact `pass` names absent from the environment, in order.
pub fn missing_required(env: &Vec<(String, String)>, pass: &Vec<String>) -> (r: Vec<String>)
    ensures
        r@.len() == missing_from(pass@, env_view(env@)).len(),
        forall|i: int| 0 <= i < r@.len() ==> #[trigger] r@[i]@ == missing_from(pass@, env_view(env@))[i],
{
    let mut out: Vec<String> = Vec::new();
    let mut i: usize = 0;
    while i < pass.len()
        invariant
            i <= pass@.len(),
            out@.len() == missing_from(pass@.subrange(0, i as int), env_view(env@)).len(),
            forall|q: int| 0 <= q < out@.len() ==> #[trigger] out@[q]@ == missing_from(pass@.subrange(0, i as int), env_view(env@))[q],
        decreases pass@.len() - i,
    {
        assert(pass@.subrange(0, i + 1).drop_last() =~= pass@.subrange(0, i as int));
        let p = pass[i].as_str();
        let exact = !is_globby_str(p) || !glob_compiles(p);
        if exact {
            match value_of(env, p) {
                None => {
                    out.push(pass[i].clone());
                },
                Some(_) => {},
            }
        }
        i = i + 1;
    }
    assert(pass@.subrange(0, pass@.len() as int) =~= pass@);
    out
}

/// The environment that `runtime_env` turns `m` into (before the check for
/// required names).
pub open spec fn processed_env(m: Map<Seq<char>, Seq<char>>, rt: RuntimeEnv) -> Map<Seq<char>, Seq<char>> {
    let pass = match rt.pass {
        Some(p) => p@,
        None => Seq::empty(),
    };
    let a = match rt.unset {
        Some(u) => unset_from(m, pass, u@),
        None => m,
    };
    let b = match rt.map {
        Some(mp) => map_from(a, pass, mp@),
        None => a,
    };
    match rt.set {
        Some(st) => set_from(b, st@),
        None => b,
    }
}

/// Apply `runtime.env` to the environment: unset, then map, then set, the
/// `pass` patterns protecting what they match throughout. Returns the exact
/// `pass` names still absent afterwards (empty when all are present).
pub fn process_runtime_env(env_map: &mut Vec<(String, String)>, runtime_env: &RuntimeEnv) -> (r: Result<(), FlavorError>)
    ensures
        env_view(final(env_map)@) == processed_env(env_view(old(env_map)@), *runtime_env),
        ({
            let pass = match runtime_env.pass {
                Some(p) => p@,
                None => Seq::<String>::empty(),
            };
            let missing = missing_from(pass, env_view(final(env_map)@));
            &&& missing.len() == 0 ==> r is Ok
            &&& missing.len() > 0 ==> r is Err && (r->Err_0 matches FlavorError::MissingRequiredEnv(names)
                && names@.len() == missing.len() && forall|i: int| 0 <= i < names@.len() ==> #[trigger] names@[i]@ == missing[i])
        }),
{
    let empty: Vec<String> = Vec::new();
    let pass: &Vec<String> = match &runtime_env.pass {
        Some(p) => p,
        None => &empty,
    };
    match &runtime_env.unset {
        Some(u) => unset_stage(env_map, pass, u),
        None => {},
    }
    match &runtime_env.map {
        Some(m) => map_stage(env_map, pass, m),
        None => {},
    }
    match &runtime_env.set {
        Some(s) => set_stage(env_map, s),
        None => {},
    }
    let missing = missing_required(env_map, pass);
    if missing.len() == 0 {
        Ok(())
    } else {
        Err(FlavorError::MissingRequiredEnv(missing))
    }
}

/// Overlay `pairs` on `m` with placeholders substituted in the values; with
/// `keep_cache`, an existing `FLAVOR_CACHE` is not overridden.
pub open spec fn overlay(
    m: Map<Seq<char>, Seq<char>>,
    pairs: Seq<(String, String)>,
    workenv: Seq<char>,
    package: PackageInfo,
    keep_cache: bool,
) -> Map<Seq<char>, Seq<char>>
    decreases pairs.len(),
{
    if pairs.len() == 0 {
        m
    } else {
        let k = pairs[0].0@;
        let v = substituted(pairs[0].1@, workenv, package.name@, package.version@);
        let next = if keep_cache && k == "FLAVOR_CACHE"@ && m.dom().contains(k) {
            m
        } else {
            m.insert(k, v)
        };
        overlay(next, pairs.drop_first(), workenv, package, keep_cache)
    }
}

/// The environment a package's command runs with, before the two
/// `FLAVOR_*_COMMAND*` names: `FLAVOR_CACHE` defaulted, `runtime.env`
/// applied, `workenv.env` then `execution.env` overlaid, `FLAVOR_WORKENV`
/// set and `<workenv>/bin` put first on `PATH`.
pub open spec fn composed_env(
    inherited: Map<Seq<char>, Seq<char>>,
    host_cache: Option<Seq<char>>,
    runtime: Option<RuntimeEnv>,
    workenv_env: Seq<(String, String)>,
    exec_env: Seq<(String, String)>,
    workenv: Seq<char>,
    package: PackageInfo,
) -> Map<Seq<char>, Seq<char>> {
    let m1 = if !inherited.dom().contains("FLAVOR_CACHE"@) && host_cache is Some {
        inherited.insert("FLAVOR_CACHE"@, host_cache->Some_0)
    } else {
        inherited
    };
    let m2 = match runtime {
        Some(rt) => processed_env(m1, rt),
        None => m1,
    };
    let m3 = overlay(m2, workenv_env, workenv, package, true);
    let m4 = overlay(m3, exec_env, workenv, package, false);
    let m5 = m4.insert("FLAVOR_WORKENV"@, workenv);
    let bin = workenv + "/bin"@;
    m5.insert(
        "PATH"@,
        if m5.dom().contains("PATH"@) {
            bin + ":"@ + m5["PATH"@]
        } else {
            bin
        },
    )
}

fn overlay_stage(
    env: &mut Vec<(String, String)>,
    pairs: &Vec<(String, String)>,
    workenv: &str,
    package: &PackageInfo,
    keep_cache: bool,
)
    ensures
        env_view(final(env)@) == overlay(env_view(old(env)@), pairs@, workenv@, *package, keep_cache),
{
    let mut i: usize = 0;
    assert(pairs@.subrange(0, pairs@.len() as int) =~= pairs@);
    proof {
        reveal_strlit("FLAVOR_CACHE");
    }
    while i < pairs.len()
        invariant
            i <= pairs@.len(),
            overlay(env_view(old(env)@), pairs@, workenv@, *package, keep_cache) == overlay(
                env_view(env@),
                pairs@.subrange(i as int, pairs@.len() as int),
                workenv@,
                *package,
                keep_cache,
            ),
        decreases pairs@.len() - i,
    {
        let ghost rest = pairs@.subrange(i as int, pairs@.len() as int);
        assert(rest.drop_first() =~= pairs@.subrange(i + 1, pairs@.len() as int));
        let key = pairs[i].0.as_str();
        let skip = keep_cache && str_equal(key, "FLAVOR_CACHE") && value_of(env, key).is_some();
        if !skip {
            let value = substitute_placeholders(pairs[i].1.as_str(), workenv, package);
            let ghost before = env@;
            insert_env(env, key, value.as_str());
            proof {
                lemma_view_insert(before, env@, key@, value@);
            }
        }
        i = i + 1;
    }
    assert(pairs@.subrange(pairs@.len() as int, pairs@.len() as int) =~= Seq::<(String, String)>::empty());
}

/// Compose the environment of a package's command (see `composed_env`);
/// fails with `MissingRequiredEnv` exactly as `process_runtime_env` does.
pub fn compose_env(
    inherited: Vec<(String, String)>,
    host_cache: Option<&str>,
    runtime: Option<&RuntimeEnv>,
    workenv_env: &Vec<(String, String)>,
    exec_env: &Vec<(String, String)>,
    workenv: &str,
    package: &PackageInfo,
) -> (r: Result<Vec<(String, String)>, FlavorError>)
    ensures
        ({
            let m1 = if !env_view(inherited@).dom().contains("FLAVOR_CACHE"@) && host_cache is Some {
                env_view(inherited@).insert("FLAVOR_CACHE"@, host_cache->Some_0@)
            } else {
                env_view(inherited@)
            };
            let missing = match runtime {
                Some(rt) => missing_from(
                    match rt.pass {
                        Some(p) => p@,
                        None => Seq::<String>::empty(),
                    },
                    processed_env(m1, *rt),
                ),
                None => Seq::<Seq<char>>::empty(),
            };
            &&& r is Ok <==> missing.len() == 0
            &&& r is Err ==> (r->Err_0 matches FlavorError::MissingRequiredEnv(names) && names@.len()
                == missing.len() && forall|i: int| 0 <= i < names@.len() ==> #[trigger] names@[i]@ == missing[i])
            &&& r is Ok ==> env_view(r->Ok_0@) == composed_env(
                env_view(inherited@),
                match host_cache {
                    Some(h) => Some(h@),
                    None => None,
                },
                match runtime {
                    Some(rt) => Some(*rt),
                    None => None,
                },
                workenv_env@,
                exec_env@,
                workenv@,
                *package,
            )
        }),
{
    let mut env = inherited;
    proof {
        reveal_strlit("FLAVOR_CACHE");
        reveal_strlit("FLAVOR_WORKENV");
        reveal_strlit("PATH");
        reveal_strlit("/bin");
        reveal_strlit(":");
    }
    match host_cache {
        Some(h) => {
            if value_of(&env, "FLAVOR_CACHE").is_none() {
                let ghost before = env@;
                insert_env(&mut env, "FLAVOR_CACHE", h);
                proof {
                    lemma_view_insert(before, env@, "FLAVOR_CACHE"@, h@);
                }
            }
        },
        None => {},
    }
    match runtime {
        Some(rt) => {
            match process_runtime_env(&mut env, rt) {
                Ok(()) => {},
                Err(e) => {
                    return Err(e);
                },
            }
        },
        None => {},
    }
    overlay_stage(&mut env, workenv_env, workenv, package, true);
    overlay_stage(&mut env, exec_env, workenv, package, false);
    let ghost before = env@;
    insert_env(&mut env, "FLAVOR_WORKENV", workenv);
    proof {
        lemma_view_insert(before, env@, "FLAVOR_WORKENV"@, workenv@);
    }
    let mut path = String::from_str(workenv);
    path.append("/bin");
    match value_of(&env, "PATH") {
        Some(old_path) => {
            path.append(":");
            path.append(old_path.as_str());
        },
        None => {},
    }
    let ghost before2 = env@;
    insert_env(&mut env, "PATH", path.as_str());
    proof {
        lemma_view_insert(before2, env@, "PATH"@, path@);
    }
    Ok(env)
}

} // verus!
