//! Alias tables: which aliases trigger which section or component.
//!
//! The section table is an `IndexMap` kept in the order its sections were
//! declared; that order is the order in which sections are rendered. The
//! component table is a list of pairs. Both are read through the same model:
//! a sequence of (canonical name, aliases) pairs.
use crate::text::strs_of;
use indexmap::IndexMap;
use vstd::prelude::*;

verus! {

/// The model of an alias table: (canonical name, aliases) pairs, in order.
pub type AliasModel = Seq<(Seq<char>, Seq<Seq<char>>)>;

/// `indexmap::IndexMap`, held opaque: its contents are read through
/// `section_entries` and the wrappers below.
#[verifier::external_type_specification]
#[verifier::external_body]
#[verifier::reject_recursive_types(K)]
#[verifier::reject_recursive_types(V)]
#[verifier::reject_recursive_types(S)]
pub struct ExIndexMap<K, V, S>(IndexMap<K, V, S>);

/// Relies on `IndexMap`'s `Clone`, so that types holding a section table can
/// be cloned; nothing is claimed of the copy.
pub assume_specification<K, V, S>[ <IndexMap<K, V, S> as Clone>::clone ](
    m: &IndexMap<K, V, S>,
) -> IndexMap<K, V, S>
    where
        K: Clone,
        V: Clone,
        S: Clone,
;

/// The pairs of a section table, in the map's order, keys and aliases as
/// character sequences.
pub uninterp spec fn section_entries(m: IndexMap<String, Vec<String>>) -> AliasModel;

/// The model of a pair of the section table.
pub open spec fn pair_view(k: String, v: Vec<String>) -> (Seq<char>, Seq<Seq<char>>) {
    (k@, strs_of(v@))
}

/// The model of a component table.
pub open spec fn component_entries(t: Seq<(String, Vec<String>)>) -> AliasModel {
    t.map_values(|p: (String, Vec<String>)| pair_view(p.0, p.1))
}

/// The model holds `key` as a canonical name.
pub open spec fn has_key(t: AliasModel, key: Seq<char>) -> bool {
    exists|i: int| 0 <= i < t.len() && #[trigger] t[i].0 == key
}

/// `t` after `IndexMap::insert(key, aliases)`: the pair of an equal key
/// gets the new aliases in its place; a new key goes last.
pub open spec fn insert_entry(t: AliasModel, key: Seq<char>, aliases: Seq<Seq<char>>) -> AliasModel {
    if has_key(t, key) {
        t.map_values(
            |p: (Seq<char>, Seq<Seq<char>>)|
                if p.0 == key {
                    (p.0, aliases)
                } else {
                    p
                },
        )
    } else {
        t.push((key, aliases))
    }
}

/// Relies on `IndexMap::new`: a new map holds no pair.
#[verifier::external_body]
pub(crate) fn new_table() -> (r: IndexMap<String, Vec<String>>)
    ensures
        section_entries(r) == Seq::<(Seq<char>, Seq<Seq<char>>)>::empty(),
{
    IndexMap::new()
}

/// Relies on `IndexMap::insert`: an equal key keeps its place and takes the
/// new value; otherwise the pair is inserted last.
#[verifier::external_body]
pub(crate) fn table_insert(m: &mut IndexMap<String, Vec<String>>, key: String, aliases: Vec<String>)
    ensures
        section_entries(*final(m)) == insert_entry(
            section_entries(*old(m)),
            key@,
            strs_of(aliases@),
        ),
{
    m.insert(key, aliases);
}

/// Relies on `IndexMap::len`: the number of pairs.
#[verifier::external_body]
pub(crate) fn table_len(m: &IndexMap<String, Vec<String>>) -> (r: usize)
    ensures
        r == section_entries(*m).len(),
{
    m.len()
}

/// Relies on `IndexMap::get_index`: the pair at position `i` in the map's
/// order, where `i` is below the length.
#[verifier::external_body]
pub(crate) fn table_entry(m: &IndexMap<String, Vec<String>>, i: usize) -> (r: Option<
    (&String, &Vec<String>),
>)
    ensures
        match r {
            Some(p) => i < section_entries(*m).len() && pair_view(*p.0, *p.1)
                == section_entries(*m)[i as int],
            None => i >= section_entries(*m).len(),
        },
{
    m.get_index(i)
}

/// The first position at or after `i` whose aliases hold `alias`, or -1.
pub open spec fn first_with_alias(t: AliasModel, alias: Seq<char>, i: int) -> int
    decreases t.len() - i,
{
    if i < 0 || i >= t.len() {
        -1
    } else if t[i].1.contains(alias) {
        i
    } else {
        first_with_alias(t, alias, i + 1)
    }
}

/// The name of the catch-all section.
pub open spec fn unknown_section() -> Seq<char> {
    "Unknown"@
}

/// The canonical section that `token` resolves to: the first section in
/// table order whose aliases hold it exactly, or `Unknown`.
pub open spec fn resolve_section_in(t: AliasModel, token: Seq<char>) -> Seq<char> {
    let i = first_with_alias(t, token, 0);
    if i >= 0 {
        t[i].0
    } else {
        unknown_section()
    }
}

/// The canonical component that `tag` resolves to: the first component in
/// table order whose aliases hold it exactly, or `tag` itself.
pub open spec fn resolve_component_in(t: AliasModel, tag: Seq<char>) -> Seq<char> {
    let i = first_with_alias(t, tag, 0);
    if i >= 0 {
        t[i].0
    } else {
        tag
    }
}

/// Whether the section table has `key` as a canonical name.
pub fn table_has_key(m: &IndexMap<String, Vec<String>>, key: &String) -> (r: bool)
    ensures
        r == has_key(section_entries(*m), key@),
{
    let n = table_len(m);
    let mut i: usize = 0;
    while i < n
        invariant
            i <= n,
            n == section_entries(*m).len(),
            forall|j: int| 0 <= j < i ==> section_entries(*m)[j].0 != key@,
        decreases n - i,
    {
        match table_entry(m, i) {
            Some((k, _)) => {
                if *k == *key {
                    assert(section_entries(*m)[i as int].0 == key@);
                    return true;
                }
            },
            None => {},
        }
        i = i + 1;
    }
    false
}

/// Whether `aliases` holds `alias`.
pub fn holds_alias(aliases: &Vec<String>, alias: &String) -> (r: bool)
    ensures
        r == strs_of(aliases@).contains(alias@),
{
    let mut j: usize = 0;
    while j < aliases.len()
        invariant
            j <= aliases.len(),
            forall|u: int| 0 <= u < j ==> strs_of(aliases@)[u] != alias@,
        decreases aliases.len() - j,
    {
        if aliases[j] == *alias {
            assert(strs_of(aliases@)[j as int] == alias@);
            return true;
        }
        j = j + 1;
    }
    false
}

/// The position of the first section whose aliases hold `alias`.
pub fn section_position(m: &IndexMap<String, Vec<String>>, alias: &String) -> (r: Option<usize>)
    ensures
        match r {
            Some(i) => first_with_alias(section_entries(*m), alias@, 0) == i,
            None => first_with_alias(section_entries(*m), alias@, 0) == -1,
        },
{
    let n = table_len(m);
    let mut i: usize = 0;
    while i < n
        invariant
            i <= n,
            n == section_entries(*m).len(),
            first_with_alias(section_entries(*m), alias@, 0) == first_with_alias(
                section_entries(*m),
                alias@,
                i as int,
            ),
        decreases n - i,
    {
        match table_entry(m, i) {
            Some((_, v)) => {
                if holds_alias(v, alias) {
                    return Some(i);
                }
            },
            None => {},
        }
        i = i + 1;
    }
    None
}

/// The position of the first component whose aliases hold `alias`.
pub fn component_position(t: &Vec<(String, Vec<String>)>, alias: &String) -> (r: Option<usize>)
    ensures
        match r {
            Some(i) => first_with_alias(component_entries(t@), alias@, 0) == i && i < t.len(),
            None => first_with_alias(component_entries(t@), alias@, 0) == -1,
        },
{
    let mut i: usize = 0;
    while i < t.len()
        invariant
            i <= t.len(),
            first_with_alias(component_entries(t@), alias@, 0) == first_with_alias(
                component_entries(t@),
                alias@,
                i as int,
            ),
        decreases t.len() - i,
    {
        assert(component_entries(t@)[i as int] == pair_view(t@[i as int].0, t@[i as int].1));
        if holds_alias(&t[i].1, alias) {
            return Some(i);
        }
        i = i + 1;
    }
    None
}

} // verus!
