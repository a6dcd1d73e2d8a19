//! The sections of a configuration: neither their order nor the spelling of
//! their headers matters.
//!
//! A header such as `[com.apple.finder]` is a list of keys, and may as well be
//! written as the one key `["com.apple.finder"]`.
use vstd::multiset::Multiset;
use vstd::prelude::*;
use vstd::seq_lib::lemma_multiset_commutative;

use crate::config::RuleView;
use crate::document::NodeView;
use crate::document::toml_document;
use crate::parse::Leaf;
use crate::parse::all_tables;
use crate::parse::child_leaves;
use crate::parse::child_path;
use crate::parse::configured;
use crate::parse::leaves;
use crate::parse::lemma_entries_are_smaller;
use crate::parse::lemma_leaves_side_by_side;
use crate::parse::lemma_with_leaves;
use crate::parse::parsed;
use crate::parse::rule_of;
use crate::parse::with_leaves;

verus! {

/// A table that stands for a rule: the keys that lead to it, and its entries.
pub ghost struct Section {
    pub header: Seq<Seq<char>>,
    pub fields: Seq<(Seq<char>, NodeView)>,
}

/// The bundle ID that a header spells.
pub open spec fn joined(header: Seq<Seq<char>>) -> Seq<char>
    decreases header.len(),
{
    if header.len() == 0 {
        seq![]
    } else {
        child_path(joined(header.drop_last()), header.last())
    }
}

impl Section {
    /// The table under the bundle ID that its header spells.
    pub open spec fn leaf(self) -> Leaf {
        Leaf { path: joined(self.header), fields: self.fields }
    }

    /// The same section, but for the spelling of its header.
    pub open spec fn respells(self, other: Section) -> bool {
        joined(self.header) == joined(other.header) && self.fields == other.fields
    }
}

/// The sections below the table that `header` leads to, in order.
pub open spec fn sections(
    entries: Seq<(Seq<char>, NodeView)>,
    header: Seq<Seq<char>>,
) -> Seq<Section>
    decreases entries, 1int,
{
    if entries.len() > 0 && all_tables(entries) {
        child_sections(entries, header)
    } else {
        seq![Section { header, fields: entries }]
    }
}

/// The sections in each of the entries, one after the other.
pub open spec fn child_sections(
    entries: Seq<(Seq<char>, NodeView)>,
    header: Seq<Seq<char>>,
) -> Seq<Section>
    decreases entries, 0int,
{
    if entries.len() == 0 {
        seq![]
    } else {
        proof {
            lemma_entries_are_smaller(entries, 0);
        }
        (match entries[0].1.entries {
            Some(fields) => sections(fields, header.push(entries[0].0)),
            None => seq![],
        }) + child_sections(entries.drop_first(), header)
    }
}

/// The tables of a list of sections.
pub open spec fn leaves_of(list: Seq<Section>) -> Seq<Leaf> {
    Seq::new(list.len(), |i: int| list[i].leaf())
}

/// The tables that stand for rules are those of the sections.
pub proof fn law_leaves_are_sections(
    entries: Seq<(Seq<char>, NodeView)>,
    header: Seq<Seq<char>>,
)
    ensures
        leaves(entries, joined(header)) == leaves_of(sections(entries, header)),
    decreases entries, 1int,
{
    if entries.len() > 0 && all_tables(entries) {
        lemma_child_leaves_are_sections(entries, header);
    } else {
        assert(leaves(entries, joined(header)) =~= leaves_of(sections(entries, header)));
    }
}

proof fn lemma_child_leaves_are_sections(
    entries: Seq<(Seq<char>, NodeView)>,
    header: Seq<Seq<char>>,
)
    ensures
        child_leaves(entries, joined(header)) == leaves_of(child_sections(entries, header)),
    decreases entries, 0int,
{
    if entries.len() > 0 {
        lemma_entries_are_smaller(entries, 0);
        lemma_child_leaves_are_sections(entries.drop_first(), header);
        let longer = header.push(entries[0].0);
        assert(longer.drop_last() =~= header);
        if entries[0].1.entries is Some {
            law_leaves_are_sections(entries[0].1.entries->Some_0, longer);
        }
    }
    assert(child_leaves(entries, joined(header)) =~= leaves_of(child_sections(entries, header)));
}

/// A header may as well be written as one key, whose parts are joined by dots.
pub proof fn law_a_quoted_header_spells_the_dotted_one(header: Seq<Seq<char>>)
    ensures
        joined(seq![joined(header)]) == joined(header),
{
    assert(seq![joined(header)].drop_last() =~= seq![]);
    reveal_with_fuel(joined, 2);
}

proof fn lemma_same_elements<A>(a: Seq<A>, b: Seq<A>)
    requires
        a.to_multiset() == b.to_multiset(),
    ensures
        a.len() == b.len(),
        forall|i: int| 0 <= i < a.len() ==> b.contains(#[trigger] a[i]),
        forall|i: int| 0 <= i < b.len() ==> a.contains(#[trigger] b[i]),
{
    a.to_multiset_ensures();
    b.to_multiset_ensures();
    assert forall|i: int| 0 <= i < a.len() implies b.contains(#[trigger] a[i]) by {
        assert(a.contains(a[i]));
        assert(b.to_multiset().count(a[i]) > 0);
    }
    assert forall|i: int| 0 <= i < b.len() implies a.contains(#[trigger] b[i]) by {
        assert(b.contains(b[i]));
        assert(a.to_multiset().count(b[i]) > 0);
    }
}

/// The order in which tables are added to the rules does not matter: where they
/// can be added in one order, they can in any other, with the same result.
pub proof fn law_the_order_of_tables_does_not_matter(
    a: Seq<Leaf>,
    b: Seq<Leaf>,
    rules: Map<Seq<char>, RuleView>,
)
    requires
        a.to_multiset() == b.to_multiset(),
        with_leaves(a, rules) is Ok,
    ensures
        with_leaves(b, rules) == with_leaves(a, rules),
{
    lemma_with_leaves(a, rules);
    lemma_with_leaves(b, rules);
    lemma_same_elements(a, b);
    assert(a.no_duplicates());
    a.lemma_multiset_has_no_duplicates();
    b.lemma_multiset_has_no_duplicates_conv();
    assert forall|i: int| 0 <= i < b.len() implies rule_of(#[trigger] b[i]) is Ok
        && !rules.contains_key(b[i].path) by {
        let k = choose|k: int| 0 <= k < a.len() && a[k] == b[i];
        assert(rule_of(a[k]) is Ok);
    }
    assert forall|i: int, j: int|
        #![trigger b[i], b[j]]
        0 <= i < j < b.len() implies b[i].path != b[j].path by {
        assert(a.contains(b[i]) && a.contains(b[j]));
        let k = choose|k: int| 0 <= k < a.len() && a[k] == b[i];
        let l = choose|l: int| 0 <= l < a.len() && a[l] == b[j];
        assert(b[i] != b[j]);
        if k < l {
            assert(a[k].path != a[l].path);
        } else {
            assert(a[l].path != a[k].path);
        }
    }
    let one = with_leaves(a, rules)->Ok_0;
    let other = with_leaves(b, rules)->Ok_0;
    assert forall|id: Seq<char>| #[trigger] one.contains_key(id) == other.contains_key(id) && (
    one.contains_key(id) ==> one[id] == other[id]) by {
        if !rules.contains_key(id) {
            if one.contains_key(id) {
                let k = choose|k: int| 0 <= k < a.len() && (#[trigger] a[k]).path == id;
                assert(b.contains(a[k]));
                let l = choose|l: int| 0 <= l < b.len() && b[l] == a[k];
                assert(other.contains_key(b[l].path));
            }
            if other.contains_key(id) {
                let l = choose|l: int| 0 <= l < b.len() && (#[trigger] b[l]).path == id;
                assert(a.contains(b[l]));
                let k = choose|k: int| 0 <= k < a.len() && a[k] == b[l];
                assert(one.contains_key(a[k].path));
            }
        }
    }
    assert(one =~= other);
}

proof fn lemma_leaves_of_multiset(a: Seq<Section>, b: Seq<Section>)
    requires
        a.to_multiset() == b.to_multiset(),
    ensures
        leaves_of(a).to_multiset() == leaves_of(b).to_multiset(),
    decreases a.len(),
{
    lemma_same_elements(a, b);
    if a.len() == 0 {
        assert(leaves_of(a) =~= leaves_of(b));
    } else {
        let i = a.len() - 1;
        assert(b.contains(a[i]));
        let j = choose|j: int| 0 <= j < b.len() && b[j] == a[i];
        a.to_multiset_ensures();
        b.to_multiset_ensures();
        lemma_leaves_of_multiset(a.remove(i), b.remove(j));
        let p = leaves_of(a);
        let q = leaves_of(b);
        p.to_multiset_ensures();
        q.to_multiset_ensures();
        assert(leaves_of(a.remove(i)) =~= p.remove(i));
        assert(leaves_of(b.remove(j)) =~= q.remove(j));
        assert(p[i] == q[j]);
        assert(p.contains(p[i]) && q.contains(q[j]));
        assert(p.to_multiset() =~= p.remove(i).to_multiset().insert(p[i]));
        assert(q.to_multiset() =~= q.remove(j).to_multiset().insert(q[j]));
    }
}

/// A document whose sections are those of a configuration, in any order and with
/// any spelling of their headers, is a configuration with the same rules.
pub proof fn law_sections_in_any_order_and_spelling(
    entries: Seq<(Seq<char>, NodeView)>,
    other: Seq<(Seq<char>, NodeView)>,
    respelled: Seq<Section>,
)
    requires
        configured(entries) is Ok,
        respelled.len() == sections(entries, seq![]).len(),
        forall|i: int|
            0 <= i < respelled.len() ==> (#[trigger] respelled[i]).respells(
                sections(entries, seq![])[i],
            ),
        sections(other, seq![]).to_multiset() == respelled.to_multiset(),
    ensures
        configured(other) == configured(entries),
{
    let none: Seq<Seq<char>> = seq![];
    law_leaves_are_sections(entries, none);
    law_leaves_are_sections(other, none);
    lemma_leaves_of_multiset(sections(other, none), respelled);
    assert(leaves_of(respelled) =~= leaves_of(sections(entries, none)));
    law_the_order_of_tables_does_not_matter(
        leaves(entries, seq![]),
        leaves(other, seq![]),
        Map::empty(),
    );
}

/// Two texts whose documents have the same sections, in any order and with any
/// spelling of their headers, are configurations with the same rules if one of
/// them is a configuration.
pub proof fn law_texts_in_any_order_and_spelling(
    source: Seq<char>,
    other: Seq<char>,
    respelled: Seq<Section>,
)
    requires
        parsed(toml_document(source)) is Ok,
        toml_document(other) is Ok,
        respelled.len() == sections(toml_document(source)->Ok_0.entries->Some_0, seq![]).len(),
        forall|i: int|
            0 <= i < respelled.len() ==> (#[trigger] respelled[i]).respells(
                sections(toml_document(source)->Ok_0.entries->Some_0, seq![])[i],
            ),
        sections(toml_document(other)->Ok_0.entries->Some_0, seq![]).to_multiset()
            == respelled.to_multiset(),
    ensures
        parsed(toml_document(other)) == parsed(toml_document(source)),
{
    law_sections_in_any_order_and_spelling(
        toml_document(source)->Ok_0.entries->Some_0,
        toml_document(other)->Ok_0.entries->Some_0,
        respelled,
    );
}

/// The entries once the `j`th table of the `i`th entry stands beside that entry,
/// under both their keys joined by a dot. An entry that held nothing else is gone.
pub open spec fn moved_out(entries: Seq<(Seq<char>, NodeView)>, i: int, j: int) -> Seq<
    (Seq<char>, NodeView),
> {
    let (key, node) = entries[i];
    let inner = node.entries->Some_0;
    let rest = inner.remove(j);
    let others = if rest.len() == 0 {
        entries.remove(i)
    } else {
        entries.update(i, (key, NodeView { entries: Some(rest), number: node.number }))
    };
    others.push((key.push('.') + inner[j].0, inner[j].1))
}

proof fn lemma_child_leaves_of_one(entry: (Seq<char>, NodeView), path: Seq<char>)
    requires
        entry.1.entries is Some,
    ensures
        child_leaves(seq![entry], path) == leaves(
            entry.1.entries->Some_0,
            child_path(path, entry.0),
        ),
{
    assert(seq![entry].drop_first() =~= seq![]);
    reveal_with_fuel(child_leaves, 2);
    assert(child_leaves(seq![entry], path) =~= leaves(
        entry.1.entries->Some_0,
        child_path(path, entry.0),
    ));
}

/// The tables of the entries are those of one entry and those of the others.
proof fn lemma_child_leaves_around(
    entries: Seq<(Seq<char>, NodeView)>,
    i: int,
    path: Seq<char>,
)
    requires
        0 <= i < entries.len(),
        entries[i].1.entries is Some,
    ensures
        child_leaves(entries, path).to_multiset() == child_leaves(
            entries.remove(i),
            path,
        ).to_multiset().add(
            leaves(
                entries[i].1.entries->Some_0,
                child_path(path, entries[i].0),
            ).to_multiset(),
        ),
{
    let a = entries.take(i);
    let e = seq![entries[i]];
    let b = entries.skip(i + 1);
    assert(entries =~= a + e + b);
    assert(entries.remove(i) =~= a + b);
    lemma_leaves_side_by_side(a + e, b, path);
    lemma_leaves_side_by_side(a, e, path);
    lemma_leaves_side_by_side(a, b, path);
    lemma_child_leaves_of_one(entries[i], path);
    let p = child_leaves(a, path);
    let x = child_leaves(e, path);
    let q = child_leaves(b, path);
    lemma_multiset_commutative(p + x, q);
    lemma_multiset_commutative(p, x);
    lemma_multiset_commutative(p, q);
    assert(p.to_multiset().add(x.to_multiset()).add(q.to_multiset()) =~= p.to_multiset().add(
        q.to_multiset(),
    ).add(x.to_multiset()));
}

/// The order of the entries of a table that holds tables does not matter, but for
/// the order of the tables that stand for rules.
pub proof fn law_the_order_of_entries_does_not_matter(
    a: Seq<(Seq<char>, NodeView)>,
    b: Seq<(Seq<char>, NodeView)>,
    path: Seq<char>,
)
    requires
        all_tables(a),
        a.to_multiset() == b.to_multiset(),
    ensures
        leaves(a, path).to_multiset() == leaves(b, path).to_multiset(),
{
    lemma_same_elements(a, b);
    assert forall|i: int| 0 <= i < b.len() implies (#[trigger] b[i]).1.entries is Some by {
        let k = choose|k: int| 0 <= k < a.len() && a[k] == b[i];
        assert(a[k].1.entries is Some);
    }
    if a.len() == 0 {
        assert(a =~= b);
    } else {
        lemma_child_leaves_in_any_order(a, b, path);
    }
}

proof fn lemma_child_leaves_in_any_order(
    a: Seq<(Seq<char>, NodeView)>,
    b: Seq<(Seq<char>, NodeView)>,
    path: Seq<char>,
)
    requires
        all_tables(a),
        a.to_multiset() == b.to_multiset(),
    ensures
        child_leaves(a, path).to_multiset() == child_leaves(b, path).to_multiset(),
    decreases a.len(),
{
    lemma_same_elements(a, b);
    if a.len() == 0 {
        assert(a =~= b);
    } else {
        assert(b.contains(a[0]));
        let j = choose|j: int| 0 <= j < b.len() && b[j] == a[0];
        a.to_multiset_ensures();
        b.to_multiset_ensures();
        lemma_all_tables_but_one(a, 0);
        lemma_child_leaves_in_any_order(a.remove(0), b.remove(j), path);
        lemma_child_leaves_around(a, 0, path);
        lemma_child_leaves_around(b, j, path);
    }
}

proof fn lemma_all_tables_but_one(entries: Seq<(Seq<char>, NodeView)>, i: int)
    requires
        0 <= i < entries.len(),
        all_tables(entries),
    ensures
        all_tables(entries.remove(i)),
{
    assert forall|k: int| 0 <= k < entries.remove(i).len() implies (
    #[trigger] entries.remove(i)[k]).1.entries is Some by {
        if k < i {
            assert(entries.remove(i)[k] == entries[k]);
        } else {
            assert(entries.remove(i)[k] == entries[k + 1]);
        }
    }
}

/// A table inside another, which may hold more tables, may as well stand beside
/// it under the joined key: the same tables stand for rules, in some order.
pub proof fn law_a_table_may_stand_under_its_joined_key(
    entries: Seq<(Seq<char>, NodeView)>,
    i: int,
    j: int,
    path: Seq<char>,
)
    requires
        0 <= i < entries.len(),
        all_tables(entries),
        0 <= j < entries[i].1.entries->Some_0.len(),
        all_tables(entries[i].1.entries->Some_0),
        path.len() > 0 || entries[i].0.len() > 0,
    ensures
        leaves(moved_out(entries, i, j), path).to_multiset() == leaves(
            entries,
            path,
        ).to_multiset(),
{
    let (key, node) = entries[i];
    let inner = node.entries->Some_0;
    let rest = inner.remove(j);
    let below = child_path(path, key);
    let moved = moved_out(entries, i, j);
    let others = moved.drop_last();
    let added = moved.last();
    let found = leaves(inner[j].1.entries->Some_0, child_path(below, inner[j].0)).to_multiset();
    assert(entries[i].1.entries is Some);
    assert(inner[j].1.entries is Some);
    assert(child_path(below, inner[j].0) =~= child_path(path, key.push('.') + inner[j].0));
    lemma_all_tables_but_one(inner, j);
    lemma_all_tables_but_one(entries, i);
    assert(all_tables(moved)) by {
        assert forall|k: int| 0 <= k < moved.len() implies (
        #[trigger] moved[k]).1.entries is Some by {
            if k < others.len() && rest.len() == 0 {
                assert(moved[k] == entries.remove(i)[k]);
            } else if k < others.len() && k != i {
                assert(moved[k] == entries[k]);
            }
        }
    }
    lemma_child_leaves_around(entries, i, path);
    lemma_child_leaves_around(inner, j, below);
    lemma_child_leaves_around(moved, moved.len() - 1, path);
    assert(moved.remove(moved.len() - 1) =~= others);
    let outside = child_leaves(entries.remove(i), path).to_multiset();
    let within = child_leaves(rest, below).to_multiset();
    if rest.len() == 0 {
        assert(others =~= entries.remove(i));
        child_leaves(rest, below).to_multiset_ensures();
        assert(within =~= Multiset::empty());
        assert(outside.add(found) =~= outside.add(within.add(found)));
    } else {
        lemma_child_leaves_around(others, i, path);
        assert(others.remove(i) =~= entries.remove(i));
        assert(outside.add(within).add(found) =~= outside.add(within.add(found)));
    }
}

/// Moving a table out under its joined key leaves the rules of a configuration as
/// they are.
pub proof fn law_moving_a_table_out_keeps_the_rules(
    entries: Seq<(Seq<char>, NodeView)>,
    i: int,
    j: int,
)
    requires
        configured(entries) is Ok,
        0 <= i < entries.len(),
        all_tables(entries),
        0 <= j < entries[i].1.entries->Some_0.len(),
        all_tables(entries[i].1.entries->Some_0),
        entries[i].0.len() > 0,
    ensures
        configured(moved_out(entries, i, j)) == configured(entries),
{
    law_a_table_may_stand_under_its_joined_key(entries, i, j, seq![]);
    law_the_order_of_tables_does_not_matter(
        leaves(entries, seq![]),
        leaves(moved_out(entries, i, j), seq![]),
        Map::empty(),
    );
}

} // verus!
