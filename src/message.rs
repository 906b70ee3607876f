//! The grammar of a commit message.
//!
//! A raw commit block is split into lines. Its second line may follow the
//! convention `type(component): subject`, and its body lines may hold
//! directives that name issues (`Closes #12, #34`, `Breaks #5`) or a bare
//! breaking-change marker (the word "breaking" in any ASCII case).
use crate::text::{chars_of, seqs_of, string_of, strs_of};
use vstd::prelude::*;

verus! {

// ---------------------------------------------------------------------------
// Lines
// ---------------------------------------------------------------------------

/// `line` without one trailing carriage return.
pub open spec fn strip_cr(line: Seq<char>) -> Seq<char> {
    if line.len() > 0 && line.last() == '\r' {
        line.drop_last()
    } else {
        line
    }
}

/// The complete lines of `p` and the unfinished last line, read left to right.
pub open spec fn lines_state(p: Seq<char>) -> (Seq<Seq<char>>, Seq<char>)
    decreases p.len(),
{
    if p.len() == 0 {
        (Seq::empty(), Seq::empty())
    } else {
        let (done, cur) = lines_state(p.drop_last());
        if p.last() == '\n' {
            (done.push(strip_cr(cur)), Seq::empty())
        } else {
            (done, cur.push(p.last()))
        }
    }
}

/// The lines of `s`: split at each `\n`, a `\r` before it dropped, and no
/// empty line made by a final `\n`.
pub open spec fn lines_of(s: Seq<char>) -> Seq<Seq<char>> {
    let (done, cur) = lines_state(s);
    if cur.len() == 0 {
        done
    } else {
        done.push(cur)
    }
}

/// The lines of `text`, as `lines_of` describes them.
pub fn split_lines(text: &Vec<char>) -> (r: Vec<Vec<char>>)
    ensures
        seqs_of(r@) == lines_of(text@),
{
    let mut done: Vec<Vec<char>> = Vec::new();
    let mut cur: Vec<char> = Vec::new();
    let mut i: usize = 0;
    while i < text.len()
        invariant
            i <= text.len(),
            (seqs_of(done@), cur@) == lines_state(text@.subrange(0, i as int)),
        decreases text.len() - i,
    {
        let c = text[i];
        assert(text@.subrange(0, i + 1).drop_last() == text@.subrange(0, i as int));
        if c == '\n' {
            if cur.len() > 0 && cur[cur.len() - 1] == '\r' {
                cur.pop();
            }
            done.push(cur);
            cur = Vec::new();
        } else {
            cur.push(c);
        }
        i = i + 1;
    }
    assert(text@.subrange(0, text.len() as int) == text@);
    if cur.len() > 0 {
        done.push(cur);
    }
    done
}

// ---------------------------------------------------------------------------
// The subject line: `type(component): subject` or `type: subject`
// ---------------------------------------------------------------------------

/// What a conventional subject line is made of.
pub struct SubjectParts {
    /// The raw type token before the colon or the parenthesis.
    pub kind: String,
    /// The raw component tag inside the parentheses, if there are any.
    pub component: Option<String>,
    /// Everything after the colon.
    pub subject: String,
}

/// The first index at or after `i` that holds `:` or `(`, or -1.
pub open spec fn first_delim(s: Seq<char>, i: int) -> int
    decreases s.len() - i,
{
    if i < 0 || i >= s.len() {
        -1
    } else if s[i] == ':' || s[i] == '(' {
        i
    } else {
        first_delim(s, i + 1)
    }
}

/// The first index at or after `i` that holds `)`, or -1.
pub open spec fn first_close(s: Seq<char>, i: int) -> int
    decreases s.len() - i,
{
    if i < 0 || i >= s.len() {
        -1
    } else if s[i] == ')' {
        i
    } else {
        first_close(s, i + 1)
    }
}

/// The type token, the component tag and the subject of a conventional
/// subject line, or `None` where the line does not follow the convention.
///
/// The type is the text before the first `:` or `(`, and is not empty. If a
/// `(` comes first, the component runs to the first `)`, which a `:` must
/// follow. The subject is all that follows that colon.
pub open spec fn subject_match(s: Seq<char>) -> Option<(Seq<char>, Option<Seq<char>>, Seq<char>)> {
    let k = first_delim(s, 0);
    if k <= 0 {
        None
    } else if s[k] == ':' {
        Some((s.subrange(0, k), None, s.subrange(k + 1, s.len() as int)))
    } else {
        let j = first_close(s, k + 1);
        if j < 0 || j + 1 >= s.len() || s[j + 1] != ':' {
            None
        } else {
            Some((s.subrange(0, k), Some(s.subrange(k + 1, j)), s.subrange(j + 2, s.len() as int)))
        }
    }
}

/// The view of parsed subject parts.
pub open spec fn parts_view(p: SubjectParts) -> (Seq<char>, Option<Seq<char>>, Seq<char>) {
    (
        p.kind@,
        match p.component {
            Some(c) => Some(c@),
            None => None,
        },
        p.subject@,
    )
}

fn find_delim(s: &Vec<char>) -> (r: usize)
    ensures
        first_delim(s@, 0) == if r < s.len() { r as int } else { -1 },
        r <= s.len(),
{
    let mut i: usize = 0;
    while i < s.len()
        invariant
            i <= s.len(),
            first_delim(s@, 0) == first_delim(s@, i as int),
        decreases s.len() - i,
    {
        if s[i] == ':' || s[i] == '(' {
            return i;
        }
        i = i + 1;
    }
    i
}

fn find_close(s: &Vec<char>, from: usize) -> (r: usize)
    requires
        from <= s.len(),
    ensures
        first_close(s@, from as int) == if r < s.len() { r as int } else { -1 },
        from <= r <= s.len(),
{
    let mut i: usize = from;
    while i < s.len()
        invariant
            from <= i <= s.len(),
            first_close(s@, from as int) == first_close(s@, i as int),
        decreases s.len() - i,
    {
        if s[i] == ')' {
            return i;
        }
        i = i + 1;
    }
    i
}

/// Splits a subject line into its type, component and subject.
pub fn match_subject(line: &Vec<char>) -> (r: Option<SubjectParts>)
    ensures
        match r {
            Some(p) => subject_match(line@) == Some(parts_view(p)),
            None => subject_match(line@) is None,
        },
{
    let k = find_delim(line);
    if k == 0 || k >= line.len() {
        return None;
    }
    if line[k] == ':' {
        let kind = string_of(line, 0, k);
        let subject = string_of(line, k + 1, line.len());
        return Some(SubjectParts { kind, component: None, subject });
    }
    let j = find_close(line, k + 1);
    if j >= line.len() || j + 1 >= line.len() || line[j + 1] != ':' {
        return None;
    }
    let kind = string_of(line, 0, k);
    let component = string_of(line, k + 1, j);
    let subject = string_of(line, j + 2, line.len());
    Some(SubjectParts { kind, component: Some(component), subject })
}

// ---------------------------------------------------------------------------
// Body directives
// ---------------------------------------------------------------------------

/// White space as Unicode's White_Space property lists it.
pub open spec fn is_space(c: char) -> bool {
    let u = c as u32;
    (0x9 <= u <= 0xd) || u == 0x20 || u == 0x85 || u == 0xa0 || u == 0x1680 || (0x2000 <= u
        <= 0x200a) || u == 0x2028 || u == 0x2029 || u == 0x202f || u == 0x205f || u == 0x3000
}

/// An ASCII decimal digit: issue numbers are written in ASCII digits only,
/// other Unicode decimal digits do not count.
pub open spec fn is_digit(c: char) -> bool {
    '0' <= c <= '9'
}

fn space(c: char) -> (r: bool)
    ensures
        r == is_space(c),
{
    let u = c as u32;
    (0x9 <= u && u <= 0xd) || u == 0x20 || u == 0x85 || u == 0xa0 || u == 0x1680 || (0x2000 <= u
        && u <= 0x200a) || u == 0x2028 || u == 0x2029 || u == 0x202f || u == 0x205f || u == 0x3000
}

fn digit(c: char) -> (r: bool)
    ensures
        r == is_digit(c),
{
    '0' <= c && c <= '9'
}

/// `w` stands in `s` at index `p`.
pub open spec fn starts_with_at(s: Seq<char>, p: int, w: Seq<char>) -> bool {
    0 <= p && p + w.len() <= s.len() && s.subrange(p, p + w.len()) == w
}

/// The keywords of a closes directive.
pub open spec fn closes_keywords() -> Seq<Seq<char>> {
    seq!["Closes"@, "Fixes"@, "Resolves"@]
}

/// The keywords of a breaks directive.
pub open spec fn breaks_keywords() -> Seq<Seq<char>> {
    seq!["Breaks"@, "Broke"@]
}

/// An issue list starts at `q`: a `#` and a digit.
pub open spec fn list_starts_at(s: Seq<char>, q: int) -> bool {
    0 <= q && q + 1 < s.len() && s[q] == '#' && is_digit(s[q + 1])
}

/// Where the issue list of a directive that starts at `p` with the keyword
/// `kws[j]` or a later one begins, or -1. The keyword must be followed by one
/// white-space character and a list.
pub open spec fn keyword_list_at(s: Seq<char>, p: int, kws: Seq<Seq<char>>, j: int) -> int
    decreases kws.len() - j,
{
    if j < 0 || j >= kws.len() {
        -1
    } else {
        let n = kws[j].len() as int;
        if starts_with_at(s, p, kws[j]) && p + n < s.len() && is_space(s[p + n])
            && list_starts_at(s, p + n + 1) {
            p + n + 1
        } else {
            keyword_list_at(s, p, kws, j + 1)
        }
    }
}

/// Where the issue list of the first directive at or after index `p` begins,
/// or -1.
pub open spec fn find_directive(s: Seq<char>, p: int, kws: Seq<Seq<char>>) -> int
    decreases s.len() - p,
{
    if p < 0 || p >= s.len() {
        -1
    } else if keyword_list_at(s, p, kws, 0) >= 0 {
        keyword_list_at(s, p, kws, 0)
    } else {
        find_directive(s, p + 1, kws)
    }
}

/// The end of the run of digits that starts at `i`.
pub open spec fn digits_end(s: Seq<char>, i: int) -> int
    decreases s.len() - i,
{
    if i < 0 || i >= s.len() || !is_digit(s[i]) {
        i
    } else {
        digits_end(s, i + 1)
    }
}

/// Where the item after an item that ends at `e` begins, or -1: items are
/// separated by a comma and one space.
pub open spec fn next_item(s: Seq<char>, e: int) -> int {
    if 0 <= e && e + 1 < s.len() && s[e] == ',' && s[e + 1] == ' ' && list_starts_at(s, e + 2) {
        e + 2
    } else {
        -1
    }
}

/// The issue numbers of the list that starts at `q`, in order.
pub open spec fn ref_list(s: Seq<char>, q: int) -> Seq<Seq<char>>
    decreases s.len() - q,
{
    if !list_starts_at(s, q) {
        Seq::empty()
    } else {
        let e = digits_end(s, q + 1);
        let item = s.subrange(q + 1, e);
        let n = next_item(s, e);
        if n > q {
            seq![item] + ref_list(s, n)
        } else {
            seq![item]
        }
    }
}

/// The issue numbers that the first directive of `line` names, in order.
pub open spec fn line_refs(line: Seq<char>, kws: Seq<Seq<char>>) -> Seq<Seq<char>> {
    let q = find_directive(line, 0, kws);
    if q < 0 {
        Seq::empty()
    } else {
        ref_list(line, q)
    }
}

/// The word "breaking" in any ASCII case stands in `s` at index `i`. Only
/// ASCII letters fold: the Kelvin sign does not stand for `k`.
pub open spec fn breaking_at(s: Seq<char>, i: int) -> bool {
    0 <= i && i + 8 <= s.len() && forall|t: int|
        0 <= t < 8 ==> s[i + t] == #[trigger] "breaking"@[t] || s[i + t] == "BREAKING"@[t]
}

/// `s` mentions the word "breaking" in any ASCII case.
pub open spec fn mentions_breaking(s: Seq<char>) -> bool {
    exists|i: int| #[trigger] breaking_at(s, i)
}

/// What one body line adds to the breaking references: the issues of its
/// breaks directive, or else one empty reference where it mentions
/// "breaking".
pub open spec fn line_breaks(line: Seq<char>) -> Seq<Seq<char>> {
    if find_directive(line, 0, breaks_keywords()) >= 0 {
        line_refs(line, breaks_keywords())
    } else if mentions_breaking(line) {
        seq![Seq::<char>::empty()]
    } else {
        Seq::empty()
    }
}

/// The closing references of the body lines, in order.
pub open spec fn body_closes(lines: Seq<Seq<char>>) -> Seq<Seq<char>>
    decreases lines.len(),
{
    if lines.len() == 0 {
        Seq::empty()
    } else {
        body_closes(lines.drop_last()) + line_refs(lines.last(), closes_keywords())
    }
}

/// The breaking references of the body lines, in order.
pub open spec fn body_breaks(lines: Seq<Seq<char>>) -> Seq<Seq<char>>
    decreases lines.len(),
{
    if lines.len() == 0 {
        Seq::empty()
    } else {
        body_breaks(lines.drop_last()) + line_breaks(lines.last())
    }
}

/// The keywords of one kind of directive, as character vectors.
pub struct Keywords {
    pub words: Vec<Vec<char>>,
}

impl Keywords {
    pub open spec fn view(&self) -> Seq<Seq<char>> {
        seqs_of(self.words@)
    }

    /// The keywords of a closes directive.
    pub fn closes() -> (r: Keywords)
        ensures
            r.view() == closes_keywords(),
    {
        let words = vec![chars_of("Closes"), chars_of("Fixes"), chars_of("Resolves")];
        assert(seqs_of(words@) == closes_keywords());
        Keywords { words }
    }

    /// The keywords of a breaks directive.
    pub fn breaks() -> (r: Keywords)
        ensures
            r.view() == breaks_keywords(),
    {
        let words = vec![chars_of("Breaks"), chars_of("Broke")];
        assert(seqs_of(words@) == breaks_keywords());
        Keywords { words }
    }
}

proof fn lemma_keyword_list_starts(s: Seq<char>, p: int, kws: Seq<Seq<char>>, j: int)
    requires
        keyword_list_at(s, p, kws, j) >= 0,
    ensures
        list_starts_at(s, keyword_list_at(s, p, kws, j)),
    decreases kws.len() - j,
{
    if 0 <= j < kws.len() {
        let n = kws[j].len() as int;
        if !(starts_with_at(s, p, kws[j]) && p + n < s.len() && is_space(s[p + n])
            && list_starts_at(s, p + n + 1)) {
            lemma_keyword_list_starts(s, p, kws, j + 1);
        }
    }
}

/// A directive that is found is followed by an issue list.
proof fn lemma_directive_list_starts(s: Seq<char>, p: int, kws: Seq<Seq<char>>)
    requires
        find_directive(s, p, kws) >= 0,
    ensures
        list_starts_at(s, find_directive(s, p, kws)),
    decreases s.len() - p,
{
    if 0 <= p < s.len() {
        if keyword_list_at(s, p, kws, 0) >= 0 {
            lemma_keyword_list_starts(s, p, kws, 0);
        } else {
            lemma_directive_list_starts(s, p + 1, kws);
        }
    }
}

pub(crate) fn stands_at(s: &Vec<char>, p: usize, w: &Vec<char>) -> (r: bool)
    ensures
        r == starts_with_at(s@, p as int, w@),
{
    if p > s.len() || w.len() > s.len() - p {
        return false;
    }
    let mut t: usize = 0;
    while t < w.len()
        invariant
            t <= w.len(),
            p + w.len() <= s.len(),
            forall|u: int| 0 <= u < t ==> s@[p + u] == w@[u],
        decreases w.len() - t,
    {
        if s[p + t] != w[t] {
            assert(s@.subrange(p as int, p + w.len())[t as int] != w@[t as int]);
            return false;
        }
        t = t + 1;
    }
    assert(s@.subrange(p as int, p + w.len()) =~= w@);
    true
}

fn list_at(s: &Vec<char>, q: usize) -> (r: bool)
    ensures
        r == list_starts_at(s@, q as int),
{
    q < s.len() && q + 1 < s.len() && s[q] == '#' && digit(s[q + 1])
}

fn keyword_list(s: &Vec<char>, p: usize, kws: &Keywords) -> (r: Option<usize>)
    requires
        p < s.len(),
    ensures
        match r {
            Some(q) => keyword_list_at(s@, p as int, kws.view(), 0) == q as int,
            None => keyword_list_at(s@, p as int, kws.view(), 0) == -1,
        },
{
    let mut j: usize = 0;
    while j < kws.words.len()
        invariant
            j <= kws.words.len(),
            p < s.len(),
            keyword_list_at(s@, p as int, kws.view(), 0) == keyword_list_at(
                s@,
                p as int,
                kws.view(),
                j as int,
            ),
        decreases kws.words.len() - j,
    {
        let w = &kws.words[j];
        assert(kws.view()[j as int] == w@);
        if stands_at(s, p, w) {
            let n = w.len();
            if n < s.len() - p && space(s[p + n]) && list_at(s, p + n + 1) {
                return Some(p + n + 1);
            }
        }
        j = j + 1;
    }
    None
}

fn directive_start(s: &Vec<char>, kws: &Keywords) -> (r: Option<usize>)
    ensures
        match r {
            Some(q) => find_directive(s@, 0, kws.view()) == q as int,
            None => find_directive(s@, 0, kws.view()) == -1,
        },
{
    let mut p: usize = 0;
    while p < s.len()
        invariant
            p <= s.len(),
            find_directive(s@, 0, kws.view()) == find_directive(s@, p as int, kws.view()),
        decreases s.len() - p,
    {
        let k = keyword_list(s, p, kws);
        if k.is_some() {
            return k;
        }
        p = p + 1;
    }
    None
}

fn end_of_digits(s: &Vec<char>, i: usize) -> (r: usize)
    requires
        i <= s.len(),
    ensures
        r as int == digits_end(s@, i as int),
        i <= r <= s.len(),
{
    let mut e = i;
    while e < s.len() && digit(s[e])
        invariant
            i <= e <= s.len(),
            digits_end(s@, i as int) == digits_end(s@, e as int),
        decreases s.len() - e,
    {
        e = e + 1;
    }
    e
}

fn refs_from(s: &Vec<char>, start: usize) -> (r: Vec<String>)
    requires
        list_starts_at(s@, start as int),
    ensures
        strs_of(r@) == ref_list(s@, start as int),
{
    let mut out: Vec<String> = Vec::new();
    let mut q = start;
    let mut more = true;
    while more
        invariant
            q <= s.len(),
            more ==> list_starts_at(s@, q as int),
            more ==> ref_list(s@, start as int) == strs_of(out@) + ref_list(s@, q as int),
            !more ==> ref_list(s@, start as int) == strs_of(out@),
        decreases s.len() - q + (if more { 1int } else { 0int }),
    {
        let e = end_of_digits(s, q + 1);
        let item = string_of(s, q + 1, e);
        let ghost before = strs_of(out@);
        out.push(item);
        assert(strs_of(out@) == before.push(item@));
        if e < s.len() && e + 1 < s.len() && s[e] == ',' && s[e + 1] == ' ' && list_at(s, e + 2) {
            assert(ref_list(s@, q as int) == seq![item@] + ref_list(s@, e + 2));
            assert(before + ref_list(s@, q as int) == before.push(item@) + ref_list(s@, e + 2));
            q = e + 2;
        } else {
            assert(ref_list(s@, q as int) == seq![item@]);
            q = e;
            more = false;
        }
    }
    out
}

/// The issue numbers that the first directive of `line` names, in order.
pub fn directive_refs(line: &Vec<char>, kws: &Keywords) -> (r: Vec<String>)
    ensures
        strs_of(r@) == line_refs(line@, kws.view()),
{
    match directive_start(line, kws) {
        Some(q) => {
            proof {
                lemma_directive_list_starts(line@, 0, kws.view());
            }
            refs_from(line, q)
        },
        None => Vec::new(),
    }
}

/// Whether `line` holds a directive of the given keywords.
pub fn has_directive(line: &Vec<char>, kws: &Keywords) -> (r: bool)
    ensures
        r == (find_directive(line@, 0, kws.view()) >= 0),
{
    directive_start(line, kws).is_some()
}

/// Whether `line` mentions the word "breaking" in any ASCII case.
pub fn says_breaking(line: &Vec<char>) -> (r: bool)
    ensures
        r == mentions_breaking(line@),
{
    let lower = chars_of("breaking");
    let upper = chars_of("BREAKING");
    proof {
        reveal_strlit("breaking");
        reveal_strlit("BREAKING");
    }
    let mut i: usize = 0;
    while i < line.len() && line.len() - i >= 8
        invariant
            lower@ == "breaking"@,
            upper@ == "BREAKING"@,
            lower@.len() == 8,
            upper@.len() == 8,
            forall|j: int| 0 <= j < i ==> !breaking_at(line@, j),
        decreases line.len() - i,
    {
        let mut t: usize = 0;
        let mut all = true;
        while t < 8 && all
            invariant
                t <= 8,
                i + 8 <= line.len(),
                lower@ == "breaking"@,
                upper@ == "BREAKING"@,
                lower@.len() == 8,
                upper@.len() == 8,
                all ==> forall|u: int|
                    0 <= u < t ==> line@[i + u] == #[trigger] lower@[u] || line@[i + u] == upper@[u],
                !all ==> !breaking_at(line@, i as int),
            decreases 8 - t + (if all { 1int } else { 0int }),
        {
            let c = line[i + t];
            if c != lower[t] && c != upper[t] {
                all = false;
            } else {
                t = t + 1;
            }
        }
        if all {
            assert(breaking_at(line@, i as int));
            return true;
        }
        i = i + 1;
    }
    proof {
        assert forall|j: int| !breaking_at(line@, j) by {
            if 0 <= j && j + 8 <= line@.len() {
                assert(j < i);
            }
        }
    }
    false
}


proof fn lemma_first_delim_at(s: Seq<char>, i: int, k: int)
    requires
        0 <= i <= k < s.len(),
        s[k] == ':' || s[k] == '(',
        forall|j: int| i <= j < k ==> s[j] != ':' && s[j] != '(',
    ensures
        first_delim(s, i) == k,
    decreases k - i,
{
    if i < k {
        lemma_first_delim_at(s, i + 1, k);
    }
}

proof fn lemma_first_close_at(s: Seq<char>, i: int, k: int)
    requires
        0 <= i <= k < s.len(),
        s[k] == ')',
        forall|j: int| i <= j < k ==> s[j] != ')',
    ensures
        first_close(s, i) == k,
    decreases k - i,
{
    if i < k {
        lemma_first_close_at(s, i + 1, k);
    }
}

/// A subject line written as `type(component):subject` is read back as
/// exactly those three parts, and one written as `type:subject` as the type
/// and the subject with no component; the type being non-empty and free of
/// `:` and `(`, and the component free of `)`.
pub proof fn lemma_subject_round_trip(kind: Seq<char>, component: Seq<char>, subject: Seq<char>)
    requires
        kind.len() > 0,
        forall|i: int| 0 <= i < kind.len() ==> kind[i] != ':' && kind[i] != '(',
        forall|i: int| 0 <= i < component.len() ==> component[i] != ')',
    ensures
        subject_match(kind + seq!['('] + component + seq![')', ':'] + subject) == Some(
            (kind, Some(component), subject),
        ),
        subject_match(kind + seq![':'] + subject) == Some((kind, None::<Seq<char>>, subject)),
{
    let s = kind + seq!['('] + component + seq![')', ':'] + subject;
    let k = kind.len() as int;
    let j = k + 1 + component.len();
    assert(s[k] == '(');
    assert forall|x: int| 0 <= x < k implies s[x] != ':' && s[x] != '(' by {
        assert(s[x] == kind[x]);
    }
    lemma_first_delim_at(s, 0, k);
    assert(s[j] == ')');
    assert forall|x: int| k + 1 <= x < j implies s[x] != ')' by {
        assert(s[x] == component[x - k - 1]);
    }
    lemma_first_close_at(s, k + 1, j);
    assert(s[j + 1] == ':');
    assert(s.subrange(0, k) =~= kind);
    assert(s.subrange(k + 1, j) =~= component);
    assert(s.subrange(j + 2, s.len() as int) =~= subject);

    let t = kind + seq![':'] + subject;
    assert(t[k] == ':');
    assert forall|x: int| 0 <= x < k implies t[x] != ':' && t[x] != '(' by {
        assert(t[x] == kind[x]);
    }
    lemma_first_delim_at(t, 0, k);
    assert(t.subrange(0, k) =~= kind);
    assert(t.subrange(k + 1, t.len() as int) =~= subject);
}

} // verus!
