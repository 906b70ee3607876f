//! Character-level string helpers shared by the parser and the renderers.
use vstd::prelude::*;
use vstd::string::*;

verus! {

/// The views of a sequence of character vectors.
pub open spec fn seqs_of(v: Seq<Vec<char>>) -> Seq<Seq<char>> {
    v.map_values(|x: Vec<char>| x@)
}

/// The views of a sequence of strings.
pub open spec fn strs_of(v: Seq<String>) -> Seq<Seq<char>> {
    v.map_values(|x: String| x@)
}

/// The view of an optional string.
pub open spec fn opt_view(o: Option<String>) -> Option<Seq<char>> {
    match o {
        Some(s) => Some(s@),
        None => None,
    }
}

/// The view of an optional string slice.
pub open spec fn opt_str_view(o: Option<&str>) -> Option<Seq<char>> {
    match o {
        Some(s) => Some(s@),
        None => None,
    }
}

/// The views of concatenated strings are the concatenated views.
pub proof fn lemma_strs_concat(a: Seq<String>, b: Seq<String>)
    ensures
        strs_of(a + b) == strs_of(a) + strs_of(b),
{
    assert(strs_of(a + b) =~= strs_of(a) + strs_of(b));
}

/// `s` has the length of `lower` and each of its characters is the one of
/// `lower` or the one of `upper` at the same place.
pub open spec fn equal_folded(s: Seq<char>, lower: Seq<char>, upper: Seq<char>) -> bool {
    s.len() == lower.len() && forall|t: int|
        0 <= t < s.len() ==> s[t] == #[trigger] lower[t] || s[t] == upper[t]
}

/// Relies on `String::push`: the character is appended at the end.
#[verifier::external_body]
pub(crate) fn push_char(s: &mut String, c: char)
    ensures
        final(s)@ == old(s)@.push(c),
{
    s.push(c);
}

/// The characters of `s`, in order.
pub(crate) fn chars_of(s: &str) -> (r: Vec<char>)
    ensures
        r@ == s@,
{
    let mut r: Vec<char> = Vec::new();
    for c in it: s.chars()
        invariant
            r@ == it.seq().subrange(0, it.index() as int),
            it.seq() == s@,
    {
        r.push(c);
    }
    r
}

/// The string made of `cs[lo..hi]`.
pub(crate) fn string_of(cs: &Vec<char>, lo: usize, hi: usize) -> (r: String)
    requires
        lo <= hi <= cs.len(),
    ensures
        r@ == cs@.subrange(lo as int, hi as int),
{
    let mut r = String::new();
    let mut i = lo;
    while i < hi
        invariant
            lo <= i <= hi <= cs.len(),
            r@ == cs@.subrange(lo as int, i as int),
        decreases hi - i,
    {
        push_char(&mut r, cs[i]);
        i = i + 1;
    }
    r
}

/// The string made of all of `cs`.
pub(crate) fn string_from(cs: &Vec<char>) -> (r: String)
    ensures
        r@ == cs@,
{
    let r = string_of(cs, 0, cs.len());
    assert(cs@.subrange(0, cs.len() as int) =~= cs@);
    r
}

/// A copy of `s`.
pub(crate) fn copy_string(s: &String) -> (r: String)
    ensures
        r@ == s@,
{
    s.clone()
}

/// A copy of a list of strings.
pub(crate) fn copy_strings(v: &Vec<String>) -> (r: Vec<String>)
    ensures
        strs_of(r@) == strs_of(v@),
{
    let mut r: Vec<String> = Vec::new();
    let mut i: usize = 0;
    while i < v.len()
        invariant
            i <= v.len(),
            strs_of(r@) == strs_of(v@).subrange(0, i as int),
        decreases v.len() - i,
    {
        let c = copy_string(&v[i]);
        let ghost before = r@;
        r.push(c);
        assert(strs_of(r@) =~= strs_of(before).push(c@));
        assert(strs_of(v@).subrange(0, i + 1) =~= strs_of(v@).subrange(0, i as int).push(
            v@[i as int]@,
        ));
        i = i + 1;
    }
    assert(strs_of(v@).subrange(0, v.len() as int) =~= strs_of(v@));
    r
}

/// Whether `s` equals `lower` when each character may also be the one of
/// `upper` at the same place.
pub(crate) fn matches_folded(s: &Vec<char>, lower: &Vec<char>, upper: &Vec<char>) -> (r: bool)
    requires
        lower.len() == upper.len(),
    ensures
        r == equal_folded(s@, lower@, upper@),
{
    if s.len() != lower.len() {
        return false;
    }
    let mut t: usize = 0;
    while t < s.len()
        invariant
            t <= s.len(),
            s.len() == lower.len() == upper.len(),
            forall|u: int| 0 <= u < t ==> s@[u] == #[trigger] lower@[u] || s@[u] == upper@[u],
        decreases s.len() - t,
    {
        if s[t] != lower[t] && s[t] != upper[t] {
            return false;
        }
        t = t + 1;
    }
    true
}

} // verus!
