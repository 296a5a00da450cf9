//! Small verified helpers over the characters of strings.
use vstd::prelude::*;
use vstd::string::*;

verus! {

/// The characters that Unicode marks `White_Space`.
pub open spec fn is_space(c: char) -> bool {
    c == '\t' || c == '\n' || c == '\u{0B}' || c == '\u{0C}' || c == '\r' || c == ' '
        || c == '\u{85}' || c == '\u{A0}' || c == '\u{1680}' || ('\u{2000}' <= c
        && c <= '\u{200A}') || c == '\u{2028}' || c == '\u{2029}' || c == '\u{202F}'
        || c == '\u{205F}' || c == '\u{3000}'
}

pub fn is_space_char(c: char) -> (r: bool)
    ensures
        r == is_space(c),
{
    c == '\t' || c == '\n' || c == '\u{0B}' || c == '\u{0C}' || c == '\r' || c == ' '
        || c == '\u{85}' || c == '\u{A0}' || c == '\u{1680}' || ('\u{2000}' <= c
        && c <= '\u{200A}') || c == '\u{2028}' || c == '\u{2029}' || c == '\u{202F}'
        || c == '\u{205F}' || c == '\u{3000}'
}

/// Index of the first character of `s` that is not white space (or its length).
pub open spec fn trim_start_at(s: Seq<char>) -> int
    decreases s.len(),
{
    if s.len() == 0 {
        0
    } else if is_space(s[0]) {
        1 + trim_start_at(s.drop_first())
    } else {
        0
    }
}

/// Index one past the last character of `s` that is not white space (or zero).
pub open spec fn trim_end_at(s: Seq<char>) -> int
    decreases s.len(),
{
    if s.len() == 0 {
        0
    } else if is_space(s.last()) {
        trim_end_at(s.drop_last())
    } else {
        s.len() as int
    }
}

/// `s` without leading and trailing white space.
pub open spec fn trimmed(s: Seq<char>) -> Seq<char> {
    let e = trim_end_at(s);
    let t = s.subrange(0, e);
    t.subrange(trim_start_at(t), t.len() as int)
}

pub proof fn lemma_trim_bounds(s: Seq<char>)
    ensures
        0 <= trim_start_at(s) <= s.len(),
        0 <= trim_end_at(s) <= s.len(),
    decreases s.len(),
{
    if s.len() > 0 {
        lemma_trim_bounds(s.drop_first());
        lemma_trim_bounds(s.drop_last());
    }
}

/// Relies on `String::push`: appends one character.
#[verifier::external_body]
pub(crate) fn push_char(s: &mut String, c: char)
    ensures
        final(s)@ == old(s)@.push(c),
{
    s.push(c)
}

/// The characters of `s`.
pub fn chars_of(s: &str) -> (r: Vec<char>)
    ensures
        r@ == s@,
{
    let n = s.unicode_len();
    let mut r: Vec<char> = Vec::new();
    let mut i: usize = 0;
    while i < n
        invariant
            n == s@.len(),
            i <= n,
            r@ == s@.subrange(0, i as int),
        decreases n - i,
    {
        r.push(s.get_char(i));
        i = i + 1;
    }
    assert(r@ == s@);
    r
}

/// A string holding the characters `v[lo..hi]`.
pub fn string_of(v: &Vec<char>, lo: usize, hi: usize) -> (r: String)
    requires
        lo <= hi <= v@.len(),
    ensures
        r@ == v@.subrange(lo as int, hi as int),
{
    let mut r = String::new();
    let mut i: usize = lo;
    while i < hi
        invariant
            lo <= i <= hi <= v@.len(),
            r@ == v@.subrange(lo as int, i as int),
        decreases hi - i,
    {
        push_char(&mut r, v[i]);
        assert(v@.subrange(lo as int, i + 1) == v@.subrange(lo as int, i as int).push(v@[i as int]));
        i = i + 1;
    }
    r
}

/// Whether `v[lo..lo + p.len()]` equals `p`.
pub fn matches_at(v: &Vec<char>, lo: usize, p: &Vec<char>) -> (r: bool)
    requires
        lo <= v@.len(),
    ensures
        r == (lo + p@.len() <= v@.len() && v@.subrange(lo as int, lo + p@.len()) == p@),
{
    if p.len() > v.len() - lo {
        return false;
    }
    let mut i: usize = 0;
    while i < p.len()
        invariant
            lo + p@.len() <= v@.len(),
            v@.len() <= usize::MAX,
            i <= p@.len(),
            forall|j: int| 0 <= j < i ==> v@[lo + j] == p@[j],
        decreases p@.len() - i,
    {
        if v[lo + i] != p[i] {
            assert(v@.subrange(lo as int, lo + p@.len())[i as int] != p@[i as int]);
            return false;
        }
        i = i + 1;
    }
    assert(v@.subrange(lo as int, lo + p@.len()) == p@);
    true
}

/// Whether two strings hold the same characters.
pub fn str_equal(a: &str, b: &str) -> (r: bool)
    ensures
        r == (a@ == b@),
{
    let va = chars_of(a);
    let vb = chars_of(b);
    if va.len() != vb.len() {
        return false;
    }
    assert(va@.subrange(0, vb@.len() as int) == va@);
    matches_at(&va, 0, &vb)
}

/// Whether `c` occurs in `s`.
pub fn contains_char(s: &str, c: char) -> (r: bool)
    ensures
        r == s@.contains(c),
{
    let v = chars_of(s);
    let mut i: usize = 0;
    while i < v.len()
        invariant
            v@ == s@,
            i <= v@.len(),
            forall|j: int| 0 <= j < i ==> v@[j] != c,
        decreases v@.len() - i,
    {
        if v[i] == c {
            return true;
        }
        i = i + 1;
    }
    false
}

/// The characters of `v[lo..hi]` without leading and trailing white space.
pub fn trim_range(v: &Vec<char>, lo: usize, hi: usize) -> (r: (usize, usize))
    requires
        lo <= hi <= v@.len(),
    ensures
        lo <= r.0 <= r.1 <= hi,
        v@.subrange(r.0 as int, r.1 as int) == trimmed(v@.subrange(lo as int, hi as int)),
{
    let ghost s = v@.subrange(lo as int, hi as int);
    let mut e: usize = hi;
    proof { lemma_trim_bounds(s); }
    while e > lo && is_space_char(v[e - 1])
        invariant
            lo <= e <= hi <= v@.len(),
            s == v@.subrange(lo as int, hi as int),
            trim_end_at(s) == trim_end_at(v@.subrange(lo as int, e as int)),
        decreases e,
    {
        let ghost t = v@.subrange(lo as int, e as int);
        assert(t.drop_last() == v@.subrange(lo as int, e - 1));
        e = e - 1;
    }
    let ghost t = v@.subrange(lo as int, e as int);
    assert(trim_end_at(t) == t.len()) by {
        if t.len() > 0 {
            assert(t.last() == v@[e - 1]);
        }
    }
    assert(s.subrange(0, trim_end_at(s)) == t);
    let mut b: usize = lo;
    while b < e && is_space_char(v[b])
        invariant
            lo <= b <= e,
            e <= hi <= v@.len(),
            t == v@.subrange(lo as int, e as int),
            trim_start_at(t) == (b - lo) + trim_start_at(v@.subrange(b as int, e as int)),
        decreases e - b,
    {
        let ghost u = v@.subrange(b as int, e as int);
        assert(u.drop_first() == v@.subrange(b + 1, e as int));
        b = b + 1;
    }
    let ghost u = v@.subrange(b as int, e as int);
    assert(trim_start_at(u) == 0) by {
        if u.len() > 0 {
            assert(u[0] == v@[b as int]);
        }
    }
    assert(t.subrange(trim_start_at(t), t.len() as int) == v@.subrange(b as int, e as int));
    (b, e)
}

} // verus!

verus! {

/// The lower-case form of a string, as Unicode defines it.
pub uninterp spec fn lower_of(s: Seq<char>) -> Seq<char>;

/// The upper-case form of a string, as Unicode defines it.
pub uninterp spec fn upper_of(s: Seq<char>) -> Seq<char>;

/// Relies on `str::to_lowercase`: the result depends on the characters alone.
#[verifier::external_body]
pub(crate) fn lowercase(s: &str) -> (r: String)
    ensures
        r@ == lower_of(s@),
        s@.len() == 0 ==> r@.len() == 0,
{
    s.to_lowercase()
}

/// Relies on `str::to_uppercase`: the result depends on the characters alone.
#[verifier::external_body]
pub(crate) fn uppercase(s: &str) -> (r: String)
    ensures
        r@ == upper_of(s@),
        s@.len() == 0 ==> r@.len() == 0,
{
    s.to_uppercase()
}

/// The pieces of `s` between occurrences of `sep` (one piece more than there
/// are separators).
pub open spec fn split_on(s: Seq<char>, sep: char) -> Seq<Seq<char>>
    decreases s.len(),
{
    if s.len() == 0 {
        seq![Seq::<char>::empty()]
    } else {
        let parts = split_on(s.drop_last(), sep);
        if s.last() == sep {
            parts.push(Seq::<char>::empty())
        } else {
            parts.update(parts.len() - 1, parts.last().push(s.last()))
        }
    }
}

pub proof fn lemma_split_nonempty(s: Seq<char>, sep: char)
    ensures
        split_on(s, sep).len() >= 1,
    decreases s.len(),
{
    if s.len() > 0 {
        lemma_split_nonempty(s.drop_last(), sep);
    }
}

/// The pieces of `v` between occurrences of `sep`, as strings.
pub fn split_chars(v: &Vec<char>, sep: char) -> (r: Vec<String>)
    ensures
        r@.len() == split_on(v@, sep).len(),
        forall|i: int| 0 <= i < r@.len() ==> #[trigger] r@[i]@ == split_on(v@, sep)[i],
{
    let mut parts: Vec<String> = Vec::new();
    let mut start: usize = 0;
    let mut i: usize = 0;
    while i < v.len()
        invariant
            start <= i <= v@.len(),
            parts@.len() + 1 == split_on(v@.subrange(0, i as int), sep).len(),
            forall|k: int| 0 <= k < parts@.len() ==> #[trigger] parts@[k]@ == split_on(v@.subrange(0, i as int), sep)[k],
            split_on(v@.subrange(0, i as int), sep).last() == v@.subrange(start as int, i as int),
        decreases v@.len() - i,
    {
        let ghost pre = v@.subrange(0, i as int);
        let ghost now = v@.subrange(0, i + 1);
        assert(now.drop_last() == pre);
        proof { lemma_split_nonempty(pre, sep); }
        if v[i] == sep {
            let piece = string_of(v, start, i);
            parts.push(piece);
            start = i + 1;
            assert(v@.subrange(start as int, i + 1) =~= Seq::<char>::empty());
        } else {
            assert(v@.subrange(start as int, i + 1) =~= v@.subrange(start as int, i as int).push(v@[i as int]));
        }
        i = i + 1;
    }
    let last = string_of(v, start, v.len());
    assert(v@.subrange(0, v@.len() as int) =~= v@);
    proof { lemma_split_nonempty(v@, sep); }
    parts.push(last);
    parts
}

} // verus!

verus! {

/// `s` with every occurrence of `pat` (left to right, not overlapping)
/// replaced by `rep`.
pub open spec fn replace_all<A>(s: Seq<A>, pat: Seq<A>, rep: Seq<A>) -> Seq<A>
    decreases s.len(),
{
    if pat.len() == 0 || s.len() < pat.len() {
        s
    } else if s.subrange(0, pat.len() as int) == pat {
        rep + replace_all(s.subrange(pat.len() as int, s.len() as int), pat, rep)
    } else {
        seq![s[0]] + replace_all(s.drop_first(), pat, rep)
    }
}

/// Replace every occurrence of a non-empty `pat` in `s` by `rep`.
pub fn replace_str(s: &str, pat: &str, rep: &str) -> (r: String)
    requires
        pat@.len() > 0,
    ensures
        r@ == replace_all(s@, pat@, rep@),
{
    let v = chars_of(s);
    let p = chars_of(pat);
    let mut out = String::new();
    let mut i: usize = 0;
    assert(v@.subrange(0, v@.len() as int) =~= v@);
    while i < v.len()
        invariant
            p@ == pat@,
            p@.len() > 0,
            v@ == s@,
            i <= v@.len(),
            out@ + replace_all(v@.subrange(i as int, v@.len() as int), p@, rep@) == replace_all(
                v@,
                p@,
                rep@,
            ),
        decreases v@.len() - i,
    {
        let ghost rest = v@.subrange(i as int, v@.len() as int);
        if matches_at(&v, i, &p) {
            assert(rest.subrange(0, p@.len() as int) =~= v@.subrange(i as int, i + p@.len()));
            assert(rest.subrange(p@.len() as int, rest.len() as int) =~= v@.subrange(i + p@.len(), v@.len() as int));
            let ghost o = out@;
            out.append(rep);
            assert(out@ + replace_all(v@.subrange(i + p@.len(), v@.len() as int), p@, rep@)
                =~= o + (rep@ + replace_all(v@.subrange(i + p@.len(), v@.len() as int), p@, rep@)));
            i = i + p.len();
        } else {
            proof {
                if rest.len() >= p@.len() {
                    assert(rest.subrange(0, p@.len() as int) =~= v@.subrange(i as int, i + p@.len()));
                }
            }
            assert(rest.drop_first() =~= v@.subrange(i + 1, v@.len() as int));
            let ghost o = out@;
            push_char(&mut out, v[i]);
            assert(out@ + replace_all(v@.subrange(i + 1, v@.len() as int), p@, rep@)
                =~= o + (seq![v@[i as int]] + replace_all(v@.subrange(i + 1, v@.len() as int), p@, rep@)));
            i = i + 1;
        }
    }
    assert(v@.subrange(v@.len() as int, v@.len() as int) =~= Seq::<char>::empty());
    assert(out@ + Seq::<char>::empty() =~= out@);
    out
}

/// Whether `pat` occurs in `s`.
pub open spec fn occurs_in<A>(s: Seq<A>, pat: Seq<A>) -> bool {
    exists|i: int| 0 <= i && i + pat.len() <= s.len() && #[trigger] s.subrange(i, i + pat.len()) == pat
}

} // verus!
