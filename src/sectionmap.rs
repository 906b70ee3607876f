//! The grouping of classified commits: section, then component, then the
//! commits in input order.
use crate::git::{commits_view, Commit, CommitView};
use crate::text::chars_of;
use vstd::prelude::*;

verus! {

/// The second level of the changelog: (component, commits) pairs, in
/// component-name order.
pub type ComponentMap = Vec<(String, Vec<Commit>)>;

/// The grouping of a changelog: (section title, components) pairs. Titles
/// are distinct, and each section's components are distinct and in name
/// order.
pub struct SectionMap {
    /// The top level of the changelog, i.e. sections -> components
    sections: Vec<(String, ComponentMap)>,
}

/// The model of one section's components.
pub type ComponentsModel = Seq<(Seq<char>, Seq<CommitView>)>;

/// The model of a grouping.
pub type GroupingModel = Seq<(Seq<char>, ComponentsModel)>;

/// The model of a component map.
pub open spec fn components_view(cs: Seq<(String, Vec<Commit>)>) -> ComponentsModel {
    cs.map_values(|p: (String, Vec<Commit>)| (p.0@, commits_view(p.1@)))
}

/// The model of a list of sections.
pub open spec fn grouping_view(v: Seq<(String, ComponentMap)>) -> GroupingModel {
    v.map_values(|p: (String, ComponentMap)| (p.0@, components_view(p.1@)))
}

impl View for SectionMap {
    type V = GroupingModel;

    closed spec fn view(&self) -> GroupingModel {
        grouping_view(self.sections@)
    }
}

// ---------------------------------------------------------------------------
// Keys, order
// ---------------------------------------------------------------------------

/// The first position at or after `i` whose key is `k`, or -1.
pub open spec fn first_key<V>(m: Seq<(Seq<char>, V)>, k: Seq<char>, i: int) -> int
    decreases m.len() - i,
{
    if i < 0 || i >= m.len() {
        -1
    } else if m[i].0 == k {
        i
    } else {
        first_key(m, k, i + 1)
    }
}

/// Lexicographic order of character sequences, by code point; the order of
/// `String`.
pub open spec fn chars_lt(a: Seq<char>, b: Seq<char>) -> bool
    decreases a.len(),
{
    if a.len() == 0 {
        b.len() > 0
    } else if b.len() == 0 {
        false
    } else if a[0] != b[0] {
        (a[0] as int) < (b[0] as int)
    } else {
        chars_lt(a.drop_first(), b.drop_first())
    }
}

/// The first position at or after `i` whose name does not come before `c`,
/// or the length.
pub open spec fn sorted_pos(cs: ComponentsModel, c: Seq<char>, i: int) -> int
    decreases cs.len() - i,
{
    if i < 0 || i >= cs.len() {
        cs.len() as int
    } else if !chars_lt(cs[i].0, c) {
        i
    } else {
        sorted_pos(cs, c, i + 1)
    }
}

/// Component names are distinct and in lexicographic order.
pub open spec fn components_ordered(cs: ComponentsModel) -> bool {
    &&& forall|a: int, b: int| 0 <= a < b < cs.len() ==> cs[a].0 != cs[b].0
    &&& forall|a: int| 0 <= a < cs.len() - 1 ==> #[trigger] chars_lt(cs[a].0, cs[a + 1].0)
}

/// Section titles are distinct, and each section's components are ordered.
pub open spec fn grouping_wf(m: GroupingModel) -> bool {
    &&& forall|a: int, b: int| 0 <= a < b < m.len() ==> m[a].0 != m[b].0
    &&& forall|a: int| 0 <= a < m.len() ==> #[trigger] components_ordered(m[a].1)
}

// ---------------------------------------------------------------------------
// Aggregation
// ---------------------------------------------------------------------------

/// The synthetic section that also lists every breaking commit.
pub open spec fn breaking_section() -> Seq<char> {
    "Breaking Changes"@
}

/// `e` added to the components of a section: appended to its component's
/// list, or in a new component placed in name order.
pub open spec fn place_component(cs: ComponentsModel, e: CommitView) -> ComponentsModel {
    let j = first_key(cs, e.component, 0);
    if j >= 0 {
        cs.update(j, (cs[j].0, cs[j].1.push(e)))
    } else {
        cs.insert(sorted_pos(cs, e.component, 0), (e.component, seq![e]))
    }
}

/// `e` added under section `s` of `m`; a new section goes last.
pub open spec fn place(m: GroupingModel, s: Seq<char>, e: CommitView) -> GroupingModel {
    let i = first_key(m, s, 0);
    if i >= 0 {
        m.update(i, (m[i].0, place_component(m[i].1, e)))
    } else {
        m.push((s, seq![(e.component, seq![e])]))
    }
}

/// `e` added to `m`: under "Breaking Changes" if it breaks anything, then
/// under its own section.
pub open spec fn add_entry(m: GroupingModel, e: CommitView) -> GroupingModel {
    let m1 = if e.breaks.len() > 0 {
        place(m, breaking_section(), e)
    } else {
        m
    };
    place(m1, e.commit_type, e)
}

/// The grouping of `es`, entry by entry in input order.
pub open spec fn aggregate(es: Seq<CommitView>) -> GroupingModel
    decreases es.len(),
{
    if es.len() == 0 {
        Seq::empty()
    } else {
        add_entry(aggregate(es.drop_last()), es.last())
    }
}

/// The commits listed under section `s` and component `c`.
pub open spec fn entries_at(m: GroupingModel, s: Seq<char>, c: Seq<char>) -> Seq<CommitView> {
    let i = first_key(m, s, 0);
    if i < 0 {
        Seq::empty()
    } else {
        let j = first_key(m[i].1, c, 0);
        if j < 0 {
            Seq::empty()
        } else {
            m[i].1[j].1
        }
    }
}

/// The entries of `es` that belong under section `s` and component `c`, in
/// input order: each entry of component `c` once if its section is `s`, and
/// once more if it breaks anything and `s` is "Breaking Changes".
pub open spec fn bucket(es: Seq<CommitView>, s: Seq<char>, c: Seq<char>) -> Seq<CommitView>
    decreases es.len(),
{
    if es.len() == 0 {
        Seq::empty()
    } else {
        let e = es.last();
        let b0 = bucket(es.drop_last(), s, c);
        let b1 = if e.breaks.len() > 0 && s == breaking_section() && e.component == c {
            b0.push(e)
        } else {
            b0
        };
        if e.commit_type == s && e.component == c {
            b1.push(e)
        } else {
            b1
        }
    }
}

/// The number of commits listed in a section's components.
pub open spec fn components_count(cs: ComponentsModel) -> int
    decreases cs.len(),
{
    if cs.len() == 0 {
        0
    } else {
        components_count(cs.drop_last()) + cs.last().1.len()
    }
}

/// The number of commits listed over all sections.
pub open spec fn grouping_count(m: GroupingModel) -> int
    decreases m.len(),
{
    if m.len() == 0 {
        0
    } else {
        grouping_count(m.drop_last()) + components_count(m.last().1)
    }
}

/// The number of entries of `es` that break something.
pub open spec fn breaking_count(es: Seq<CommitView>) -> int
    decreases es.len(),
{
    if es.len() == 0 {
        0
    } else {
        breaking_count(es.drop_last()) + if es.last().breaks.len() > 0 {
            1int
        } else {
            0int
        }
    }
}

// ---------------------------------------------------------------------------
// Lemmas on keys
// ---------------------------------------------------------------------------

proof fn lemma_first_key_range<V>(m: Seq<(Seq<char>, V)>, k: Seq<char>, i: int)
    requires
        0 <= i,
    ensures
        first_key(m, k, i) == -1 ==> forall|x: int| i <= x < m.len() ==> m[x].0 != k,
        first_key(m, k, i) != -1 ==> {
            &&& i <= first_key(m, k, i) < m.len()
            &&& m[first_key(m, k, i)].0 == k
            &&& forall|x: int| i <= x < first_key(m, k, i) ==> m[x].0 != k
        },
    decreases m.len() - i,
{
    if i < m.len() && m[i].0 != k {
        lemma_first_key_range(m, k, i + 1);
    }
}

proof fn lemma_first_key_is<V>(m: Seq<(Seq<char>, V)>, k: Seq<char>, i: int, r: int)
    requires
        0 <= i <= r < m.len(),
        m[r].0 == k,
        forall|x: int| i <= x < r ==> m[x].0 != k,
    ensures
        first_key(m, k, i) == r,
    decreases r - i,
{
    if i < r {
        lemma_first_key_is(m, k, i + 1, r);
    }
}

proof fn lemma_first_key_none<V>(m: Seq<(Seq<char>, V)>, k: Seq<char>, i: int)
    requires
        0 <= i,
        forall|x: int| i <= x < m.len() ==> m[x].0 != k,
    ensures
        first_key(m, k, i) == -1,
    decreases m.len() - i,
{
    if i < m.len() {
        lemma_first_key_none(m, k, i + 1);
    }
}

proof fn lemma_sorted_pos(cs: ComponentsModel, c: Seq<char>, i: int)
    requires
        0 <= i <= cs.len(),
    ensures
        i <= sorted_pos(cs, c, i) <= cs.len(),
        forall|x: int| i <= x < sorted_pos(cs, c, i) ==> chars_lt(#[trigger] cs[x].0, c),
        sorted_pos(cs, c, i) < cs.len() ==> !chars_lt(cs[sorted_pos(cs, c, i)].0, c),
    decreases cs.len() - i,
{
    if i < cs.len() && chars_lt(cs[i].0, c) {
        lemma_sorted_pos(cs, c, i + 1);
    }
}

/// Of two distinct sequences, one comes before the other.
proof fn lemma_chars_lt_total(a: Seq<char>, b: Seq<char>)
    requires
        a != b,
        !chars_lt(a, b),
    ensures
        chars_lt(b, a),
    decreases a.len(),
{
    if a.len() > 0 && b.len() > 0 && a[0] == b[0] {
        assert(a.drop_first() != b.drop_first()) by {
            if a.drop_first() == b.drop_first() {
                assert(a =~= seq![a[0]] + a.drop_first());
                assert(b =~= seq![b[0]] + b.drop_first());
            }
        }
        lemma_chars_lt_total(a.drop_first(), b.drop_first());
    } else if a.len() == 0 {
        assert(b.len() == 0);
        assert(a =~= b);
    } else if b.len() > 0 {
        assert(a[0] != b[0]);
        assert((a[0] as int) != (b[0] as int));
    }
}

// ---------------------------------------------------------------------------
// Lemmas on placing an entry
// ---------------------------------------------------------------------------

proof fn lemma_place_component(cs: ComponentsModel, e: CommitView, c: Seq<char>)
    requires
        components_ordered(cs),
    ensures
        components_ordered(place_component(cs, e)),
        ({
            let j = first_key(place_component(cs, e), c, 0);
            let j0 = first_key(cs, c, 0);
            let before = if j0 < 0 {
                Seq::empty()
            } else {
                cs[j0].1
            };
            let after = if j < 0 {
                Seq::empty()
            } else {
                place_component(cs, e)[j].1
            };
            after == if c == e.component {
                before.push(e)
            } else {
                before
            }
        }),
        components_count(place_component(cs, e)) == components_count(cs) + 1,
{
    let n = cs;
    let k = e.component;
    let j = first_key(cs, k, 0);
    lemma_first_key_range(cs, k, 0);
    lemma_first_key_range(cs, c, 0);
    let r = place_component(cs, e);
    if j >= 0 {
        let x = (cs[j].0, cs[j].1.push(e));
        assert(r == cs.update(j, x));
        // lookups
        if first_key(cs, c, 0) >= 0 {
            lemma_first_key_is(r, c, 0, first_key(cs, c, 0));
        } else {
            lemma_first_key_none(r, c, 0);
        }
        lemma_count_update(cs, j, x);
    } else {
        let p = sorted_pos(cs, k, 0);
        lemma_sorted_pos(cs, k, 0);
        let x = (k, seq![e]);
        assert(r == cs.insert(p, x));
        assert(r.len() == cs.len() + 1);
        // order
        assert forall|a: int, b: int| 0 <= a < b < r.len() implies r[a].0 != r[b].0 by {
            if a == p {
                assert(r[b] == cs[b - 1]);
            } else if b == p {
                assert(r[a] == cs[a]);
            }
        }
        assert forall|a: int| 0 <= a < r.len() - 1 implies #[trigger] chars_lt(r[a].0, r[a + 1].0) by {
            if a + 1 == p {
                assert(r[a] == cs[a]);
            } else if a == p {
                assert(r[a + 1] == cs[p]);
                lemma_chars_lt_total(cs[p].0, k);
            } else if a < p {
                assert(r[a] == cs[a] && r[a + 1] == cs[a + 1]);
            } else {
                assert(r[a] == cs[a - 1] && r[a + 1] == cs[a]);
                assert(chars_lt(cs[a - 1].0, cs[(a - 1) + 1].0));
            }
        }
        // lookups
        if c == k {
            lemma_first_key_is(r, c, 0, p);
        } else if first_key(cs, c, 0) >= 0 {
            let f = first_key(cs, c, 0);
            if f < p {
                lemma_first_key_is(r, c, 0, f);
            } else {
                assert forall|x: int| 0 <= x < f + 1 implies r[x].0 != c by {
                    if x < p {
                        assert(r[x] == cs[x]);
                    } else if x > p {
                        assert(r[x] == cs[x - 1]);
                    }
                }
                lemma_first_key_is(r, c, 0, f + 1);
            }
        } else {
            assert forall|x: int| 0 <= x < r.len() implies r[x].0 != c by {
                if x < p {
                    assert(r[x] == cs[x]);
                } else if x > p {
                    assert(r[x] == cs[x - 1]);
                }
            }
            lemma_first_key_none(r, c, 0);
        }
        lemma_count_insert(cs, p, x);
    }
}

proof fn lemma_count_update(cs: ComponentsModel, j: int, x: (Seq<char>, Seq<CommitView>))
    requires
        0 <= j < cs.len(),
    ensures
        components_count(cs.update(j, x)) == components_count(cs) - cs[j].1.len() + x.1.len(),
    decreases cs.len(),
{
    if j < cs.len() - 1 {
        assert(cs.update(j, x).drop_last() =~= cs.drop_last().update(j, x));
        lemma_count_update(cs.drop_last(), j, x);
    } else {
        assert(cs.update(j, x).drop_last() =~= cs.drop_last());
    }
}

proof fn lemma_count_insert(cs: ComponentsModel, p: int, x: (Seq<char>, Seq<CommitView>))
    requires
        0 <= p <= cs.len(),
    ensures
        components_count(cs.insert(p, x)) == components_count(cs) + x.1.len(),
    decreases cs.len(),
{
    if p < cs.len() {
        assert(cs.insert(p, x).drop_last() =~= cs.drop_last().insert(p, x));
        lemma_count_insert(cs.drop_last(), p, x);
    } else {
        assert(cs.insert(p, x).drop_last() =~= cs);
    }
}

proof fn lemma_group_count_update(m: GroupingModel, j: int, x: (Seq<char>, ComponentsModel))
    requires
        0 <= j < m.len(),
    ensures
        grouping_count(m.update(j, x)) == grouping_count(m) - components_count(m[j].1)
            + components_count(x.1),
    decreases m.len(),
{
    if j < m.len() - 1 {
        assert(m.update(j, x).drop_last() =~= m.drop_last().update(j, x));
        lemma_group_count_update(m.drop_last(), j, x);
    } else {
        assert(m.update(j, x).drop_last() =~= m.drop_last());
    }
}

proof fn lemma_place(m: GroupingModel, s: Seq<char>, e: CommitView, t: Seq<char>, c: Seq<char>)
    requires
        grouping_wf(m),
    ensures
        grouping_wf(place(m, s, e)),
        entries_at(place(m, s, e), t, c) == if t == s && c == e.component {
            entries_at(m, t, c).push(e)
        } else {
            entries_at(m, t, c)
        },
        grouping_count(place(m, s, e)) == grouping_count(m) + 1,
{
    let i = first_key(m, s, 0);
    lemma_first_key_range(m, s, 0);
    lemma_first_key_range(m, t, 0);
    let r = place(m, s, e);
    if i >= 0 {
        let x = (m[i].0, place_component(m[i].1, e));
        assert(r == m.update(i, x));
        assert(components_ordered(m[i].1));
        lemma_place_component(m[i].1, e, c);
        assert(grouping_wf(r)) by {
            assert forall|a: int| 0 <= a < r.len() implies #[trigger] components_ordered(r[a].1) by {
                if a != i {
                    assert(components_ordered(m[a].1));
                }
            }
        }
        if first_key(m, t, 0) >= 0 {
            lemma_first_key_is(r, t, 0, first_key(m, t, 0));
        } else {
            lemma_first_key_none(r, t, 0);
        }
        lemma_group_count_update(m, i, x);
    } else {
        let x = (s, seq![(e.component, seq![e])]);
        assert(r == m.push(x));
        assert(components_ordered(x.1));
        assert(grouping_wf(r)) by {
            assert forall|a: int| 0 <= a < r.len() implies #[trigger] components_ordered(r[a].1) by {
                if a < m.len() {
                    assert(components_ordered(m[a].1));
                }
            }
        }
        if first_key(m, t, 0) >= 0 {
            lemma_first_key_is(r, t, 0, first_key(m, t, 0));
        } else if t == s {
            lemma_first_key_is(r, t, 0, m.len() as int);
            lemma_first_key_range(x.1, c, 0);
            if c == e.component {
                lemma_first_key_is(x.1, c, 0, 0);
            } else {
                lemma_first_key_none(x.1, c, 0);
            }
        } else {
            lemma_first_key_none(r, t, 0);
        }
        assert(r.drop_last() == m);
        assert(components_count(x.1) == 1) by {
            assert(x.1.drop_last() =~= Seq::<(Seq<char>, Seq<CommitView>)>::empty());
            assert(components_count(x.1.drop_last()) == 0);
            assert(x.1.last().1.len() == 1);
        }
    }
}

proof fn lemma_add_entry(m: GroupingModel, e: CommitView, t: Seq<char>, c: Seq<char>)
    requires
        grouping_wf(m),
    ensures
        grouping_wf(add_entry(m, e)),
        grouping_count(add_entry(m, e)) == grouping_count(m) + 1 + if e.breaks.len() > 0 {
            1int
        } else {
            0int
        },
{
    if e.breaks.len() > 0 {
        lemma_place(m, breaking_section(), e, t, c);
        lemma_place(place(m, breaking_section(), e), e.commit_type, e, t, c);
    } else {
        lemma_place(m, e.commit_type, e, t, c);
    }
}

/// The grouping of any entries is well formed, and lists under each section
/// and component exactly the entries that belong there.
pub proof fn lemma_aggregate(es: Seq<CommitView>, t: Seq<char>, c: Seq<char>)
    ensures
        grouping_wf(aggregate(es)),
        entries_at(aggregate(es), t, c) == bucket(es, t, c),
        grouping_count(aggregate(es)) == es.len() + breaking_count(es),
    decreases es.len(),
{
    if es.len() > 0 {
        let m = aggregate(es.drop_last());
        let e = es.last();
        lemma_aggregate(es.drop_last(), t, c);
        lemma_add_entry(m, e, t, c);
        if e.breaks.len() > 0 {
            lemma_place(m, breaking_section(), e, t, c);
            lemma_place(place(m, breaking_section(), e), e.commit_type, e, t, c);
        } else {
            lemma_place(m, e.commit_type, e, t, c);
        }
    }
}


/// An entry with a given section and component is listed under them, and a
/// breaking entry also under "Breaking Changes".
proof fn lemma_bucket_contains(es: Seq<CommitView>, k: int, s: Seq<char>)
    requires
        0 <= k < es.len(),
        es[k].commit_type == s || (es[k].breaks.len() > 0 && s == breaking_section()),
    ensures
        bucket(es, s, es[k].component).contains(es[k]),
    decreases es.len(),
{
    let c = es[k].component;
    let e = es.last();
    let b0 = bucket(es.drop_last(), s, c);
    let b1 = if e.breaks.len() > 0 && s == breaking_section() && e.component == c {
        b0.push(e)
    } else {
        b0
    };
    let b = bucket(es, s, c);
    if k == es.len() - 1 {
        if e.commit_type == s {
            assert(b == b1.push(e));
            assert(b[b1.len() as int] == e);
        } else {
            assert(b1 == b0.push(e));
            assert(b == b1);
            assert(b[b0.len() as int] == e);
        }
    } else {
        assert(es.drop_last()[k] == es[k]);
        lemma_bucket_contains(es.drop_last(), k, s);
        let w = choose|w: int| 0 <= w < b0.len() && b0[w] == es[k];
        assert(b1[w] == es[k]);
        assert(b[w] == es[k]);
    }
}

/// Aggregation depends on the entries alone: groupings built from entry
/// lists with equal contents are equal, however often it is done.
pub proof fn lemma_aggregation_repeatable(
    x: Seq<Commit>,
    y: Seq<Commit>,
    first: SectionMap,
    second: SectionMap,
)
    requires
        commits_view(x) == commits_view(y),
        first@ == aggregate(commits_view(x)),
        second@ == aggregate(commits_view(y)),
    ensures
        first@ == second@,
{
}

/// An entry that breaks something is listed both under its own section and
/// under "Breaking Changes", and the grouping lists as many entries as there
/// are entries plus breaking entries.
pub proof fn lemma_breaking_duplication(es: Seq<CommitView>, k: int)
    requires
        0 <= k < es.len(),
        es[k].breaks.len() > 0,
    ensures
        entries_at(aggregate(es), es[k].commit_type, es[k].component).contains(es[k]),
        entries_at(aggregate(es), breaking_section(), es[k].component).contains(es[k]),
        grouping_count(aggregate(es)) == es.len() + breaking_count(es),
{
    lemma_aggregate(es, es[k].commit_type, es[k].component);
    lemma_aggregate(es, breaking_section(), es[k].component);
    lemma_bucket_contains(es, k, es[k].commit_type);
    lemma_bucket_contains(es, k, breaking_section());
}

/// Whether `a` comes before `b` in lexicographic order.
fn string_lt(a: &String, b: &String) -> (r: bool)
    ensures
        r == chars_lt(a@, b@),
{
    let x = chars_of(a.as_str());
    let y = chars_of(b.as_str());
    assert(x@.subrange(0, x.len() as int) =~= x@);
    assert(y@.subrange(0, y.len() as int) =~= y@);
    let mut i: usize = 0;
    while i < x.len() && i < y.len() && x[i] == y[i]
        invariant
            i <= x.len(),
            i <= y.len(),
            x@ == a@,
            y@ == b@,
            chars_lt(a@, b@) == chars_lt(
                x@.subrange(i as int, x.len() as int),
                y@.subrange(i as int, y.len() as int),
            ),
        decreases x.len() - i,
    {
        assert(x@.subrange(i as int, x.len() as int).drop_first() =~= x@.subrange(
            i + 1,
            x.len() as int,
        ));
        assert(y@.subrange(i as int, y.len() as int).drop_first() =~= y@.subrange(
            i + 1,
            y.len() as int,
        ));
        i = i + 1;
    }
    if i == x.len() {
        i < y.len()
    } else if i == y.len() {
        false
    } else {
        assert(x@.subrange(i as int, x.len() as int)[0] == x@[i as int]);
        assert(y@.subrange(i as int, y.len() as int)[0] == y@[i as int]);
        x[i] < y[i]
    }
}

proof fn lemma_commits_push(v: Seq<Commit>, c: Commit)
    ensures
        commits_view(v.push(c)) == commits_view(v).push(c@),
{
    assert(commits_view(v.push(c)) =~= commits_view(v).push(c@));
}

/// Adds `e` to a section's components: to its component's list, or in a new
/// component at its place in name order.
fn place_in_components(cs: &mut Vec<(String, Vec<Commit>)>, e: Commit)
    ensures
        components_view(final(cs)@) == place_component(components_view(old(cs)@), e@),
{
    let ghost m = components_view(cs@);
    let n = cs.len();
    let mut j: usize = 0;
    while j < n
        invariant
            j <= n,
            n == cs.len(),
            m == components_view(cs@),
            m == components_view(old(cs)@),
            first_key(m, e.component@, 0) == first_key(m, e.component@, j as int),
        decreases n - j,
    {
        assert(m[j as int].0 == cs@[j as int].0@);
        if cs[j].0 == e.component {
            assert(first_key(m, e.component@, j as int) == j as int);
            let ghost ev = e@;
            let mut entry = cs.remove(j);
            let ghost old_list = entry.1@;
            entry.1.push(e);
            proof {
                lemma_commits_push(old_list, e);
            }
            cs.insert(j, entry);
            assert(components_view(cs@) =~= m.update(j as int, (m[j as int].0, m[j as int].1.push(ev))));
            assert(ev.component == e.component@);
            assert(first_key(m, ev.component, 0) == j);
            assert(place_component(m, ev) == m.update(j as int, (m[j as int].0, m[j as int].1.push(ev))));
            return;
        }
        j = j + 1;
    }
    let mut p: usize = 0;
    while p < n && string_lt(&cs[p].0, &e.component)
        invariant
            p <= n,
            n == cs.len(),
            m == components_view(cs@),
            m == components_view(old(cs)@),
            sorted_pos(m, e.component@, 0) == sorted_pos(m, e.component@, p as int),
        decreases n - p,
    {
        assert(m[p as int].0 == cs@[p as int].0@);
        p = p + 1;
    }
    if p < n {
        assert(m[p as int].0 == cs@[p as int].0@);
    }
    let name = e.component.clone();
    let ghost ev = e@;
    let list = vec![e];
    assert(commits_view(list@) =~= seq![ev]);
    cs.insert(p, (name, list));
    assert(components_view(cs@) =~= m.insert(p as int, (ev.component, seq![ev])));
}

/// Adds `e` under the section titled `title`; a new section goes last.
fn place_section(v: &mut Vec<(String, ComponentMap)>, title: &String, e: Commit)
    ensures
        grouping_view(final(v)@) == place(grouping_view(old(v)@), title@, e@),
{
    let ghost m = grouping_view(v@);
    let n = v.len();
    let mut i: usize = 0;
    while i < n
        invariant
            i <= n,
            n == v.len(),
            m == grouping_view(v@),
            m == grouping_view(old(v)@),
            first_key(m, title@, 0) == first_key(m, title@, i as int),
        decreases n - i,
    {
        assert(m[i as int].0 == v@[i as int].0@);
        if v[i].0 == *title {
            assert(first_key(m, title@, i as int) == i as int);
            let ghost ev = e@;
            let mut section = v.remove(i);
            place_in_components(&mut section.1, e);
            v.insert(i, section);
            assert(grouping_view(v@) =~= m.update(
                i as int,
                (m[i as int].0, place_component(m[i as int].1, ev)),
            ));
            return;
        }
        i = i + 1;
    }
    let name = e.component.clone();
    let ghost ev = e@;
    let list = vec![e];
    assert(commits_view(list@) =~= seq![ev]);
    let components = vec![(name, list)];
    assert(components_view(components@) =~= seq![(ev.component, seq![ev])]);
    v.push((title.clone(), components));
    assert(grouping_view(v@) =~= m.push((title@, seq![(ev.component, seq![ev])])));
}

impl SectionMap {
    /// The sections, in the order they were first met.
    pub fn sections(&self) -> (r: &Vec<(String, ComponentMap)>)
        ensures
            grouping_view(r@) == self@,
            grouping_wf(self@),
    {
        proof {
            use_type_invariant(self);
        }
        &self.sections
    }

    #[verifier::type_invariant]
    spec fn well_formed(self) -> bool {
        grouping_wf(grouping_view(self.sections@))
    }

    /// The position of the section titled `title`, if there is one.
    pub fn position(&self, title: &String) -> (r: Option<usize>)
        ensures
            match r {
                Some(i) => first_key(self@, title@, 0) == i && i < self@.len(),
                None => first_key(self@, title@, 0) == -1,
            },
    {
        let n = self.sections.len();
        let mut i: usize = 0;
        while i < n
            invariant
                i <= n,
                n == self.sections.len(),
                first_key(self@, title@, 0) == first_key(self@, title@, i as int),
            decreases n - i,
        {
            assert(self@[i as int].0 == self.sections@[i as int].0@);
            if self.sections[i].0 == *title {
                return Some(i);
            }
            i = i + 1;
        }
        None
    }

    /// Creates a section map from a list of commits: each commit under its
    /// section and component, and a breaking commit under "Breaking Changes"
    /// as well, each list in input order.
    pub fn from_commits(commits: Vec<Commit>) -> (r: SectionMap)
        ensures
            r@ == aggregate(commits_view(commits@)),
            grouping_wf(r@),
            forall|s: Seq<char>, c: Seq<char>|
                #[trigger] entries_at(r@, s, c) == bucket(commits_view(commits@), s, c),
            grouping_count(r@) == commits.len() + breaking_count(commits_view(commits@)),
    {
        let ghost cv = commits_view(commits@);
        let mut v: Vec<(String, ComponentMap)> = Vec::new();
        assert(grouping_view(v@) =~= aggregate(cv.subrange(0, 0)));
        let breaking = "Breaking Changes".to_owned();
        let mut i: usize = 0;
        while i < commits.len()
            invariant
                i <= commits.len(),
                cv == commits_view(commits@),
                breaking@ == breaking_section(),
                grouping_view(v@) == aggregate(cv.subrange(0, i as int)),
            decreases commits.len() - i,
        {
            let entry = &commits[i];
            assert(cv.subrange(0, i + 1).drop_last() =~= cv.subrange(0, i as int));
            assert(cv.subrange(0, i + 1).last() == entry@);
            if entry.breaks.len() > 0 {
                place_section(&mut v, &breaking, entry.duplicate());
            }
            let title = entry.commit_type.clone();
            place_section(&mut v, &title, entry.duplicate());
            i = i + 1;
        }
        assert(cv.subrange(0, commits.len() as int) =~= cv);
        proof {
            lemma_aggregate(cv, Seq::empty(), Seq::empty());
        }
        let sm = SectionMap { sections: v };
        proof {
            assert forall|s: Seq<char>, c: Seq<char>|
                #[trigger] entries_at(sm@, s, c) == bucket(cv, s, c) by {
                lemma_aggregate(cv, s, c);
            }
        }
        sm
    }
}

} // verus!
