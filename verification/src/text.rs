//! String helpers with contracts over sequences of characters.

use vstd::prelude::*;
use vstd::string::StringExecFns;
use vstd::string::StrSliceExecFns;

verus! {

/// `p` is a prefix of `s`.
pub open spec fn is_prefix(p: Seq<char>, s: Seq<char>) -> bool {
    p.len() <= s.len() && s.subrange(0, p.len() as int) == p
}

/// `p` is a suffix of `s`.
pub open spec fn is_suffix(p: Seq<char>, s: Seq<char>) -> bool {
    p.len() <= s.len() && s.subrange(s.len() - p.len(), s.len() as int) == p
}

/// `p` occurs in `s` at position `at`.
pub open spec fn occurs_at(s: Seq<char>, at: int, p: Seq<char>) -> bool {
    0 <= at && at + p.len() <= s.len() && s.subrange(at, at + p.len()) == p
}

/// `s` without every leading repetition of `p`.
pub open spec fn trim_prefix(s: Seq<char>, p: Seq<char>) -> Seq<char>
    decreases s.len(),
{
    if p.len() > 0 && is_prefix(p, s) {
        trim_prefix(s.skip(p.len() as int), p)
    } else {
        s
    }
}

/// Where the last component of the path `s` starts: behind its last `/`,
/// or at 0 where it has none.
pub open spec fn base_start(s: Seq<char>) -> int
    decreases s.len(),
{
    if s.len() == 0 {
        0
    } else if s.last() == '/' {
        s.len() as int
    } else {
        base_start(s.drop_last())
    }
}

/// The last component of the path `s`.
pub open spec fn base_name(s: Seq<char>) -> Seq<char> {
    s.skip(base_start(s))
}

/// The path `s` up to and including its last `/`; empty where it has none.
pub open spec fn dir_part(s: Seq<char>) -> Seq<char> {
    s.take(base_start(s))
}

/// The path of the entry `name` in the directory `dir`.
pub open spec fn child(dir: Seq<char>, name: Seq<char>) -> Seq<char> {
    dir + seq!['/'] + name
}

/// The last component starts within the path, behind a `/` unless it
/// starts the path, and holds no `/`.
pub proof fn lemma_base_start_bounds(s: Seq<char>)
    ensures
        0 <= base_start(s) <= s.len(),
        base_start(s) > 0 ==> s[base_start(s) - 1] == '/',
        forall|i: int| base_start(s) <= i < s.len() ==> s[i] != '/',
    decreases s.len(),
{
    if s.len() > 0 && s.last() != '/' {
        let front = s.drop_last();
        lemma_base_start_bounds(front);
        assert forall|i: int| base_start(s) <= i < s.len() implies s[i] != '/' by {
            if i < front.len() {
                assert(front[i] == s[i]);
            }
        }
    }
}

/// The characters of `s`, in order.
pub fn chars_of(s: &str) -> (v: Vec<char>)
    ensures
        v@ == s@,
{
    let mut v: Vec<char> = Vec::new();
    for c in it: s.chars()
        invariant
            v@ == it.seq().take(it.index() as int),
            it.seq() == s@,
    {
        v.push(c);
    }
    v
}

/// Whether `p` occurs in `s` at position `at`.
pub fn matches_at(s: &Vec<char>, at: usize, p: &Vec<char>) -> (r: bool)
    ensures
        r == occurs_at(s@, at as int, p@),
{
    if p.len() > s.len() || at > s.len() - p.len() {
        return false;
    }
    let mut k: usize = 0;
    while k < p.len()
        invariant
            k <= p.len(),
            at + p.len() <= s.len(),
            forall|j: int| 0 <= j < k ==> s@[at + j] == p@[j],
        decreases p.len() - k,
    {
        if s[at + k] != p[k] {
            proof {
                let sub = s@.subrange(at as int, at + p.len());
                assert(sub[k as int] == s@[at + k]);
            }
            return false;
        }
        k += 1;
    }
    proof {
        assert(s@.subrange(at as int, at + p.len()) =~= p@);
    }
    true
}

/// Whether the two strings hold the same characters.
pub fn same(a: &str, b: &str) -> (r: bool)
    ensures
        r == (a@ == b@),
{
    let av = chars_of(a);
    let bv = chars_of(b);
    if av.len() != bv.len() {
        return false;
    }
    let r = matches_at(&av, 0, &bv);
    proof {
        assert(av@.subrange(0, av@.len() as int) =~= av@);
    }
    r
}

/// Whether `s` starts with `p`.
pub fn starts_with(s: &str, p: &str) -> (r: bool)
    ensures
        r == is_prefix(p@, s@),
{
    let sv = chars_of(s);
    let pv = chars_of(p);
    matches_at(&sv, 0, &pv)
}

/// Whether `s` ends with `p`.
pub fn ends_with(s: &str, p: &str) -> (r: bool)
    ensures
        r == is_suffix(p@, s@),
{
    let sv = chars_of(s);
    let pv = chars_of(p);
    if pv.len() > sv.len() {
        return false;
    }
    matches_at(&sv, sv.len() - pv.len(), &pv)
}

/// `a` followed by `b`.
pub fn joined(a: &str, b: &str) -> (r: String)
    ensures
        r@ == a@ + b@,
{
    let mut r = String::from_str(a);
    r.append(b);
    r
}

/// The path of the entry `name` in the directory `dir`.
pub fn join(dir: &str, name: &str) -> (r: String)
    ensures
        r@ == child(dir@, name@),
{
    let mut r = String::from_str(dir);
    r.append("/");
    r.append(name);
    proof {
        reveal_strlit("/");
        assert("/"@ =~= seq!['/']);
    }
    r
}

/// The characters of `s` from position `from` on.
fn tail(s: &str, from: usize) -> (r: String)
    requires
        from <= s@.len(),
    ensures
        r@ == s@.skip(from as int),
{
    let n = s.unicode_len();
    String::from_str(s.substring_char(from, n))
}

/// `s` without every leading repetition of `p`.
pub fn trim_start_matches(s: &str, p: &str) -> (r: String)
    ensures
        r@ == trim_prefix(s@, p@),
{
    let sv = chars_of(s);
    let pv = chars_of(p);
    if pv.len() == 0 {
        return String::from_str(s);
    }
    let mut at: usize = 0;
    proof {
        assert(s@.skip(0) =~= s@);
    }
    while matches_at(&sv, at, &pv)
        invariant
            at <= sv.len(),
            pv.len() > 0,
            sv@ == s@,
            pv@ == p@,
            trim_prefix(s@, p@) == trim_prefix(s@.skip(at as int), p@),
        decreases sv.len() - at,
    {
        proof {
            let rest = s@.skip(at as int);
            assert(rest.subrange(0, p@.len() as int) =~= s@.subrange(at as int, at + p@.len()));
            assert(rest.skip(p@.len() as int) =~= s@.skip(at + p@.len()));
        }
        at += pv.len();
    }
    proof {
        let rest = s@.skip(at as int);
        if at + p@.len() <= s@.len() {
            assert(rest.subrange(0, p@.len() as int) =~= s@.subrange(at as int, at + p@.len()));
        }
    }
    tail(s, at)
}

/// What follows `p` in `s`, where `s` starts with `p`.
pub fn strip_prefix(s: &str, p: &str) -> (r: Option<String>)
    ensures
        is_prefix(p@, s@) ==> r is Some && r->0@ == s@.skip(p@.len() as int),
        !is_prefix(p@, s@) ==> r is None,
{
    let sv = chars_of(s);
    let pv = chars_of(p);
    if matches_at(&sv, 0, &pv) {
        Some(tail(s, pv.len()))
    } else {
        None
    }
}

/// Where the last component of the path starts.
fn base_index(s: &Vec<char>) -> (at: usize)
    ensures
        at == base_start(s@),
{
    let mut at: usize = s.len();
    proof {
        assert(s@.take(s@.len() as int) =~= s@);
    }
    while at > 0 && s[at - 1] != '/'
        invariant
            at <= s.len(),
            base_start(s@) == base_start(s@.take(at as int)),
        decreases at,
    {
        proof {
            let cur = s@.take(at as int);
            assert(cur.last() == s@[at - 1]);
            assert(cur.drop_last() =~= s@.take(at - 1));
        }
        at -= 1;
    }
    proof {
        let cur = s@.take(at as int);
        if at > 0 {
            assert(cur.last() == s@[at - 1]);
        }
    }
    at
}

/// The path up to and including its last `/`, and its last component.
pub fn split_path(s: &str) -> (r: (String, String))
    ensures
        r.0@ == dir_part(s@),
        r.1@ == base_name(s@),
{
    let sv = chars_of(s);
    let at = base_index(&sv);
    proof {
        lemma_base_start_bounds(s@);
        assert(s@.subrange(0, at as int) =~= s@.take(at as int));
    }
    let dir = String::from_str(s.substring_char(0, at));
    let base = tail(s, at);
    (dir, base)
}

/// Whether `list` holds the text `s`.
pub fn holds_text(list: &Vec<String>, s: &str) -> (r: bool)
    ensures
        r == list.deep_view().contains(s@),
{
    let mut i: usize = 0;
    while i < list.len()
        invariant
            i <= list.len(),
            forall|j: int| 0 <= j < i ==> list.deep_view()[j] != s@,
        decreases list.len() - i,
    {
        if same(list[i].as_str(), s) {
            proof {
                assert(list.deep_view()[i as int] == s@);
            }
            return true;
        }
        i += 1;
    }
    false
}

} // verus!
