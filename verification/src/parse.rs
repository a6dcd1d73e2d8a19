//! Reading a configuration text.
//!
//! A TOML header such as `[com.apple.finder]` names nested tables. Their path,
//! joined by dots, is the bundle ID of an application, and the innermost table
//! holds the fields of its rule.
use vstd::prelude::*;

use crate::config::Config;
use crate::config::Rule;
use crate::config::RuleView;
use crate::document::Node;
use crate::document::NodeView;
use crate::document::entry_views;
use crate::document::lemma_node_entries;
use crate::document::parse_document;
use crate::document::toml_document;
use crate::number::finite;
use crate::number::is_finite;
use crate::number::is_positive_finite;
use crate::number::positive_finite;
use crate::text::contains_white_space;
use crate::text::has_white_space;
use crate::text::is_empty;
use crate::text::same;
use crate::text::white_space;

verus! {

/// A table that stands for a rule: the path that leads to it, and its entries.
pub ghost struct Leaf {
    pub path: Seq<char>,
    pub fields: Seq<(Seq<char>, NodeView)>,
}

/// Every entry is a table.
pub open spec fn all_tables(entries: Seq<(Seq<char>, NodeView)>) -> bool {
    forall|i: int| 0 <= i < entries.len() ==> (#[trigger] entries[i]).1.entries is Some
}

/// The path of an entry of the table at `path`.
pub open spec fn child_path(path: Seq<char>, key: Seq<char>) -> Seq<char> {
    if path.len() == 0 {
        key
    } else {
        path.push('.') + key
    }
}

/// The entries of an entry come before the entries they belong to.
pub proof fn lemma_entries_are_smaller(entries: Seq<(Seq<char>, NodeView)>, i: int)
    requires
        0 <= i < entries.len(),
    ensures
        entries[i].1.entries matches Some(fields) ==> decreases_to!(entries => fields),
{
    assert(decreases_to!(entries => entries[i]));
    assert(decreases_to!(entries[i] => entries[i].1));
    let node = entries[i].1;
    assert(decreases_to!(node => node.entries));
    if node.entries is Some {
        assert(decreases_to!(node.entries => node.entries->Some_0));
    }
}

/// The tables below `path` that stand for rules, in order: those that are empty
/// or hold something else than tables.
pub open spec fn leaves(entries: Seq<(Seq<char>, NodeView)>, path: Seq<char>) -> Seq<Leaf>
    decreases entries, 1int,
{
    if entries.len() > 0 && all_tables(entries) {
        child_leaves(entries, path)
    } else {
        seq![Leaf { path, fields: entries }]
    }
}

/// The tables that stand for rules in each of the entries, one after the other.
pub open spec fn child_leaves(entries: Seq<(Seq<char>, NodeView)>, path: Seq<char>) -> Seq<Leaf>
    decreases entries, 0int,
{
    if entries.len() == 0 {
        seq![]
    } else {
        proof {
            lemma_entries_are_smaller(entries, 0);
        }
        (match entries[0].1.entries {
            Some(fields) => leaves(fields, child_path(path, entries[0].0)),
            None => seq![],
        }) + child_leaves(entries.drop_first(), path)
    }
}

/// The names that the fields of a rule can have.
pub open spec fn known_field(name: Seq<char>) -> bool {
    name == "width"@ || name == "height"@ || name == "x"@ || name == "y"@
}

/// Why an entry is no field of a rule: it has another name, or its value is no
/// number.
pub open spec fn field_fault(name: Seq<char>, node: NodeView) -> Option<Seq<char>> {
    if !known_field(name) {
        Some("unknown field `"@ + name + "`, expected one of `width`, `height`, `x`, `y`\n"@)
    } else {
        match node.number {
            Ok(_) => None,
            Err(reason) => Some(reason + "\nin `"@ + name + "`\n"@),
        }
    }
}

/// The first reason why some entry is no field of a rule.
pub open spec fn first_fault(fields: Seq<(Seq<char>, NodeView)>) -> Option<Seq<char>>
    decreases fields.len(),
{
    if fields.len() == 0 {
        None
    } else {
        match field_fault(fields[0].0, fields[0].1) {
            Some(reason) => Some(reason),
            None => first_fault(fields.drop_first()),
        }
    }
}

/// The number of the first field with the given name.
pub open spec fn field(fields: Seq<(Seq<char>, NodeView)>, name: Seq<char>) -> Option<u64>
    decreases fields.len(),
{
    if fields.len() == 0 {
        None
    } else if fields[0].0 == name {
        fields[0].1.number.ok()
    } else {
        field(fields.drop_first(), name)
    }
}

/// The rule that a table stands for, or why it stands for none.
pub open spec fn rule_of(leaf: Leaf) -> Result<RuleView, Seq<char>> {
    let width = field(leaf.fields, "width"@);
    let height = field(leaf.fields, "height"@);
    let x = field(leaf.fields, "x"@);
    let y = field(leaf.fields, "y"@);
    if leaf.path.len() == 0 || has_white_space(leaf.path) {
        Err("expected [application.bundle.id] with width and height"@)
    } else if first_fault(leaf.fields) is Some {
        Err(leaf.path + ": "@ + first_fault(leaf.fields)->Some_0)
    } else if width is None {
        Err(leaf.path + ": "@ + "missing field `width`\n"@)
    } else if height is None {
        Err(leaf.path + ": "@ + "missing field `height`\n"@)
    } else if !positive_finite(width->Some_0) || !positive_finite(height->Some_0) {
        Err(leaf.path + ": "@ + "width and height must be finite and positive"@)
    } else if (x is Some && !finite(x->Some_0)) || (y is Some && !finite(y->Some_0)) {
        Err(leaf.path + ": "@ + "x and y must be finite"@)
    } else {
        Ok(
            RuleView {
                bundle_id: leaf.path,
                width: width->Some_0,
                height: height->Some_0,
                x,
                y,
            },
        )
    }
}

/// The rules with the one of a further table, or why there can be none.
pub open spec fn with_leaf(leaf: Leaf, rules: Map<Seq<char>, RuleView>) -> Result<
    Map<Seq<char>, RuleView>,
    Seq<char>,
> {
    match rule_of(leaf) {
        Err(reason) => Err(reason),
        Ok(rule) => if rules.contains_key(leaf.path) {
            Err("duplicate application: "@ + leaf.path)
        } else {
            Ok(rules.insert(leaf.path, rule))
        },
    }
}

/// The rules with those of further tables, or the first reason why there can be
/// none.
pub open spec fn with_leaves(list: Seq<Leaf>, rules: Map<Seq<char>, RuleView>) -> Result<
    Map<Seq<char>, RuleView>,
    Seq<char>,
>
    decreases list.len(),
{
    if list.len() == 0 {
        Ok(rules)
    } else {
        match with_leaf(list[0], rules) {
            Err(reason) => Err(reason),
            Ok(more) => with_leaves(list.drop_first(), more),
        }
    }
}

/// The rules of a document, or why it is no configuration.
pub open spec fn configured(entries: Seq<(Seq<char>, NodeView)>) -> Result<
    Map<Seq<char>, RuleView>,
    Seq<char>,
> {
    with_leaves(leaves(entries, seq![]), Map::empty())
}

/// Adding tables one list after the other is adding them all.
proof fn lemma_with_leaves_concat(
    a: Seq<Leaf>,
    b: Seq<Leaf>,
    rules: Map<Seq<char>, RuleView>,
)
    ensures
        with_leaves(a + b, rules) == match with_leaves(a, rules) {
            Err(reason) => Err(reason),
            Ok(more) => with_leaves(b, more),
        },
    decreases a.len(),
{
    if a.len() == 0 {
        assert(a + b =~= b);
    } else {
        assert((a + b).drop_first() =~= a.drop_first() + b);
        if with_leaf(a[0], rules) is Ok {
            lemma_with_leaves_concat(a.drop_first(), b, with_leaf(a[0], rules)->Ok_0);
        }
    }
}

fn prefixed(path: &str, reason: &str) -> (r: String)
    ensures
        r@ == path@ + ": "@ + reason@,
{
    let mut out = path.to_owned();
    out.append(": ");
    out.append(reason);
    out
}

fn is_known_field(name: &str) -> (r: bool)
    ensures
        r == known_field(name@),
{
    same(name, "width") || same(name, "height") || same(name, "x") || same(name, "y")
}

fn find_fault(fields: &Vec<(String, Node)>) -> (r: Option<String>)
    ensures
        match r {
            Some(reason) => first_fault(entry_views(fields@)) == Some(reason@),
            None => first_fault(entry_views(fields@)) is None,
        },
{
    let ghost views = entry_views(fields@);
    let mut i: usize = 0;
    assert(views.skip(0) =~= views);
    while i < fields.len()
        invariant
            i <= fields@.len(),
            views == entry_views(fields@),
            first_fault(views) == first_fault(views.skip(i as int)),
        decreases fields@.len() - i,
    {
        assert(views.skip(i as int).drop_first() =~= views.skip(i + 1));
        let name = &fields[i].0;
        if !is_known_field(name.as_str()) {
            let mut reason = "unknown field `".to_owned();
            reason.append(name.as_str());
            reason.append("`, expected one of `width`, `height`, `x`, `y`\n");
            return Some(reason);
        }
        match &fields[i].1.number {
            Ok(_) => {},
            Err(message) => {
                let mut reason = message.clone();
                reason.append("\nin `");
                reason.append(name.as_str());
                reason.append("`\n");
                return Some(reason);
            },
        }
        i += 1;
    }
    None
}

fn find_field(fields: &Vec<(String, Node)>, name: &str) -> (r: Option<u64>)
    ensures
        r == field(entry_views(fields@), name@),
{
    let ghost views = entry_views(fields@);
    let mut i: usize = 0;
    assert(views.skip(0) =~= views);
    while i < fields.len()
        invariant
            i <= fields@.len(),
            views == entry_views(fields@),
            field(views, name@) == field(views.skip(i as int), name@),
        decreases fields@.len() - i,
    {
        assert(views.skip(i as int).drop_first() =~= views.skip(i + 1));
        if same(fields[i].0.as_str(), name) {
            return match &fields[i].1.number {
                Ok(bits) => Some(*bits),
                Err(_) => None,
            };
        }
        i += 1;
    }
    None
}

/// Reads the rule that the table at `path` stands for.
pub fn read_rule(fields: &Vec<(String, Node)>, path: &str) -> (r: Result<Rule, String>)
    ensures
        match r {
            Ok(rule) => rule_of(Leaf { path: path@, fields: entry_views(fields@) }) == Ok::<
                RuleView,
                Seq<char>,
            >(rule@),
            Err(reason) => rule_of(Leaf { path: path@, fields: entry_views(fields@) }) == Err::<
                RuleView,
                Seq<char>,
            >(reason@),
        },
{
    if is_empty(path) || contains_white_space(path) {
        return Err("expected [application.bundle.id] with width and height".to_owned());
    }
    if let Some(reason) = find_fault(fields) {
        return Err(prefixed(path, reason.as_str()));
    }
    let width = match find_field(fields, "width") {
        Some(bits) => bits,
        None => return Err(prefixed(path, "missing field `width`\n")),
    };
    let height = match find_field(fields, "height") {
        Some(bits) => bits,
        None => return Err(prefixed(path, "missing field `height`\n")),
    };
    let x = find_field(fields, "x");
    let y = find_field(fields, "y");
    if !is_positive_finite(width) || !is_positive_finite(height) {
        return Err(prefixed(path, "width and height must be finite and positive"));
    }
    let x_fits = match x {
        Some(bits) => is_finite(bits),
        None => true,
    };
    let y_fits = match y {
        Some(bits) => is_finite(bits),
        None => true,
    };
    if !x_fits || !y_fits {
        return Err(prefixed(path, "x and y must be finite"));
    }
    Ok(Rule { bundle_id: path.to_owned(), width, height, x, y })
}

fn holds_tables_only(entries: &Vec<(String, Node)>) -> (r: bool)
    ensures
        r == (entries@.len() > 0 && all_tables(entry_views(entries@))),
{
    let ghost views = entry_views(entries@);
    let mut i: usize = 0;
    while i < entries.len()
        invariant
            i <= entries@.len(),
            views == entry_views(entries@),
            forall|j: int| 0 <= j < i ==> (#[trigger] views[j]).1.entries is Some,
        decreases entries@.len() - i,
    {
        if entries[i].1.entries.is_none() {
            assert(views[i as int].1.entries is None);
            return false;
        }
        i += 1;
    }
    entries.len() > 0
}

fn join_path(path: &str, key: &str) -> (r: String)
    ensures
        r@ == child_path(path@, key@),
{
    if is_empty(path) {
        key.to_owned()
    } else {
        let mut out = path.to_owned();
        out.push('.');
        out.append(key);
        out
    }
}

fn collect(entries: &Vec<(String, Node)>, path: &str, rules: &mut Config) -> (r: Result<
    (),
    String,
>)
    ensures
        match r {
            Ok(_) => with_leaves(leaves(entry_views(entries@), path@), old(rules)@) == Ok::<
                Map<Seq<char>, RuleView>,
                Seq<char>,
            >(final(rules)@),
            Err(reason) => with_leaves(leaves(entry_views(entries@), path@), old(rules)@) == Err::<
                Map<Seq<char>, RuleView>,
                Seq<char>,
            >(reason@),
        },
    decreases entry_views(entries@),
{
    let ghost views = entry_views(entries@);
    let ghost before = rules@;
    if holds_tables_only(entries) {
        let mut i: usize = 0;
        assert(views.skip(0) =~= views);
        while i < entries.len()
            invariant
                i <= entries@.len(),
                entries@.len() > 0,
                views == entry_views(entries@),
                all_tables(views),
                before == old(rules)@,
                with_leaves(child_leaves(views, path@), before) == with_leaves(
                    child_leaves(views.skip(i as int), path@),
                    rules@,
                ),
            decreases entries@.len() - i,
        {
            let ghost rest = views.skip(i as int);
            let ghost now = rules@;
            let node = &entries[i].1;
            let child = join_path(path, entries[i].0.as_str());
            assert(views[i as int] == (entries@[i as int].0@, node@));
            assert(rest[0] == views[i as int]);
            assert(rest.drop_first() =~= views.skip(i + 1));
            match &node.entries {
                Some(fields) => {
                    proof {
                        lemma_node_entries(*node);
                        lemma_entries_are_smaller(views, i as int);
                        lemma_with_leaves_concat(
                            leaves(entry_views(fields@), child@),
                            child_leaves(views.skip(i + 1), path@),
                            now,
                        );
                    }
                    match collect(fields, child.as_str(), rules) {
                        Ok(_) => {},
                        Err(reason) => return Err(reason),
                    }
                },
                None => {},
            }
            i += 1;
        }
        Ok(())
    } else {
        let ghost leaf = Leaf { path: path@, fields: views };
        proof {
            reveal_with_fuel(with_leaves, 2);
        }
        assert(leaves(views, path@) == seq![leaf]);
        match read_rule(entries, path) {
            Err(reason) => Err(reason),
            Ok(rule) => if rules.insert(rule) {
                Ok(())
            } else {
                let mut reason = "duplicate application: ".to_owned();
                reason.append(path);
                Err(reason)
            },
        }
    }
}

/// The configuration that the entries of a document stand for.
pub fn build_config(entries: &Vec<(String, Node)>) -> (r: Result<Config, String>)
    ensures
        match r {
            Ok(config) => configured(entry_views(entries@)) == Ok::<
                Map<Seq<char>, RuleView>,
                Seq<char>,
            >(config@),
            Err(reason) => configured(entry_views(entries@)) == Err::<
                Map<Seq<char>, RuleView>,
                Seq<char>,
            >(reason@),
        },
{
    proof {
        reveal_strlit("");
        assert(""@ =~= seq![]);
    }
    let mut rules = Config::new();
    match collect(entries, "", &mut rules) {
        Ok(_) => Ok(rules),
        Err(reason) => Err(reason),
    }
}

/// What a configuration text stands for, given the document that it holds.
pub open spec fn parsed(document: Result<NodeView, Seq<char>>) -> Result<
    Map<Seq<char>, RuleView>,
    Seq<char>,
> {
    match document {
        Ok(node) => configured(node.entries->Some_0),
        Err(reason) => Err(reason),
    }
}

/// Reads a configuration text.
pub fn parse_config(source: &str) -> (r: Result<Config, String>)
    ensures
        match r {
            Ok(config) => parsed(toml_document(source@)) == Ok::<
                Map<Seq<char>, RuleView>,
                Seq<char>,
            >(config@),
            Err(reason) => parsed(toml_document(source@)) == Err::<
                Map<Seq<char>, RuleView>,
                Seq<char>,
            >(reason@),
        },
{
    match parse_document(source) {
        Ok(entries) => build_config(&entries),
        Err(reason) => Err(reason),
    }
}

/// The tables can all be added to the rules: each stands for a rule, and no
/// application gets a second one.
pub open spec fn addable(list: Seq<Leaf>, rules: Map<Seq<char>, RuleView>) -> bool {
    &&& forall|i: int| 0 <= i < list.len() ==> rule_of(#[trigger] list[i]) is Ok
    &&& forall|i: int| 0 <= i < list.len() ==> !rules.contains_key((#[trigger] list[i]).path)
    &&& forall|i: int, j: int|
        #![trigger list[i], list[j]]
        0 <= i < j < list.len() ==> list[i].path != list[j].path
}

/// Which tables can be added to the rules, and what comes of it.
pub proof fn lemma_with_leaves(list: Seq<Leaf>, rules: Map<Seq<char>, RuleView>)
    ensures
        with_leaves(list, rules) is Ok <==> addable(list, rules),
        with_leaves(list, rules) matches Ok(result) ==> {
            &&& forall|i: int|
                0 <= i < list.len() ==> result.contains_key((#[trigger] list[i]).path) && rule_of(
                    list[i],
                ) == Ok::<RuleView, Seq<char>>(result[list[i].path])
            &&& forall|id: Seq<char>| #[trigger]
                rules.contains_key(id) ==> result.contains_key(id) && result[id] == rules[id]
            &&& forall|id: Seq<char>| #[trigger]
                result.contains_key(id) && !rules.contains_key(id) ==> exists|i: int|
                    0 <= i < list.len() && (#[trigger] list[i]).path == id
        },
    decreases list.len(),
{
    if list.len() > 0 {
        let rest = list.drop_first();
        if with_leaf(list[0], rules) is Ok {
            let more = with_leaf(list[0], rules)->Ok_0;
            lemma_with_leaves(rest, more);
            assert forall|i: int| 0 < i < list.len() implies #[trigger] list[i] == rest[i - 1] by {}
            if addable(rest, more) {
                assert forall|i: int, j: int|
                    #![trigger list[i], list[j]]
                    0 <= i < j < list.len() implies list[i].path != list[j].path by {
                    assert(list[j] == rest[j - 1]);
                    if i > 0 {
                        assert(list[i] == rest[i - 1]);
                    }
                }
                assert forall|i: int| 0 <= i < list.len() implies !rules.contains_key(
                    (#[trigger] list[i]).path,
                ) by {
                    if i > 0 {
                        assert(!more.contains_key(rest[i - 1].path));
                    }
                }
                let result = with_leaves(list, rules)->Ok_0;
                assert(more.contains_key(list[0].path));
                assert forall|i: int| 0 <= i < list.len() implies result.contains_key(
                    (#[trigger] list[i]).path,
                ) && rule_of(list[i]) == Ok::<RuleView, Seq<char>>(result[list[i].path]) by {
                    if i > 0 {
                        assert(list[i] == rest[i - 1]);
                    }
                }
                assert forall|id: Seq<char>| #[trigger]
                    rules.contains_key(id) implies result.contains_key(id) && result[id]
                    == rules[id] by {
                    assert(more.contains_key(id));
                }
                assert forall|id: Seq<char>| #[trigger]
                    result.contains_key(id) && !rules.contains_key(id) implies exists|i: int|
                    0 <= i < list.len() && (#[trigger] list[i]).path == id by {
                    if id == list[0].path {
                        assert(list[0].path == id);
                    } else {
                        assert(!more.contains_key(id));
                        let k = choose|k: int|
                            0 <= k < rest.len() && (#[trigger] rest[k]).path == id;
                        assert(list[k + 1].path == id);
                    }
                }
            }
            if addable(list, rules) {
                assert forall|i: int, j: int|
                    #![trigger rest[i], rest[j]]
                    0 <= i < j < rest.len() implies rest[i].path != rest[j].path by {
                    assert(list[i + 1].path != list[j + 1].path);
                }
                assert forall|i: int| 0 <= i < rest.len() implies rule_of(#[trigger] rest[i]) is Ok
                    && !more.contains_key(rest[i].path) by {
                    assert(rule_of(list[i + 1]) is Ok);
                    assert(list[0].path != list[i + 1].path);
                }
            }
        } else {
            assert(rule_of(list[0]) is Err || rules.contains_key(list[0].path));
        }
    }
}

/// A document is a configuration exactly if each of its innermost tables stands
/// for a rule and no two of them name the same application.
pub proof fn law_configurations(entries: Seq<(Seq<char>, NodeView)>)
    ensures
        configured(entries) is Ok <==> {
            let list = leaves(entries, seq![]);
            &&& forall|i: int| 0 <= i < list.len() ==> rule_of(#[trigger] list[i]) is Ok
            &&& forall|i: int, j: int|
                #![trigger list[i], list[j]]
                0 <= i < j < list.len() ==> list[i].path != list[j].path
        },
{
    lemma_with_leaves(leaves(entries, seq![]), Map::empty());
}

/// A configuration holds the rule of each innermost table of its document under
/// the path of that table, and nothing else.
pub proof fn law_rules_of_a_configuration(entries: Seq<(Seq<char>, NodeView)>)
    requires
        configured(entries) is Ok,
    ensures
        ({
            let list = leaves(entries, seq![]);
            let rules = configured(entries)->Ok_0;
            &&& forall|i: int|
                0 <= i < list.len() ==> rules.contains_key((#[trigger] list[i]).path) && rule_of(
                    list[i],
                ) == Ok::<RuleView, Seq<char>>(rules[list[i].path])
            &&& forall|id: Seq<char>| #[trigger]
                rules.contains_key(id) ==> exists|i: int|
                    0 <= i < list.len() && (#[trigger] list[i]).path == id
        }),
{
    lemma_with_leaves(leaves(entries, seq![]), Map::empty());
}

/// Every rule of a configuration stands under its own bundle ID, which holds no
/// white space, and has a finite positive size and finite coordinates.
pub proof fn law_rules_are_valid(entries: Seq<(Seq<char>, NodeView)>, id: Seq<char>)
    requires
        configured(entries) is Ok,
        configured(entries)->Ok_0.contains_key(id),
    ensures
        configured(entries)->Ok_0[id].bundle_id == id,
        configured(entries)->Ok_0[id].valid(),
{
    law_rules_of_a_configuration(entries);
    let list = leaves(entries, seq![]);
    let i = choose|i: int| 0 <= i < list.len() && (#[trigger] list[i]).path == id;
    assert(rule_of(list[i]) is Ok);
}

proof fn lemma_leaves_exist(entries: Seq<(Seq<char>, NodeView)>, path: Seq<char>)
    ensures
        leaves(entries, path).len() > 0,
    decreases entries,
{
    if entries.len() > 0 && all_tables(entries) {
        lemma_entries_are_smaller(entries, 0);
        assert(entries[0].1.entries is Some);
        lemma_leaves_exist(entries[0].1.entries->Some_0, child_path(path, entries[0].0));
    }
}

/// There is no configuration without a rule.
pub proof fn law_a_configuration_has_a_rule(entries: Seq<(Seq<char>, NodeView)>)
    requires
        configured(entries) is Ok,
    ensures
        exists|id: Seq<char>| configured(entries)->Ok_0.contains_key(id),
{
    lemma_leaves_exist(entries, seq![]);
    law_rules_of_a_configuration(entries);
    let first = leaves(entries, seq![])[0];
    assert(configured(entries)->Ok_0.contains_key(first.path));
}

/// A table that is empty or holds something else than tables stands for a rule
/// itself.
pub proof fn law_a_table_of_fields_stands_for_a_rule(
    entries: Seq<(Seq<char>, NodeView)>,
    path: Seq<char>,
)
    requires
        entries.len() == 0 || exists|i: int|
            0 <= i < entries.len() && (#[trigger] entries[i]).1.entries is None,
    ensures
        leaves(entries, path) == seq![Leaf { path, fields: entries }],
{
    if entries.len() > 0 {
        let i = choose|i: int| 0 <= i < entries.len() && (#[trigger] entries[i]).1.entries is None;
        assert(!all_tables(entries));
    }
}

/// A table inside another stands for what it would by itself, under the key of the
/// outer one, a dot and its own; at the top there is no outer key, and no dot.
pub proof fn law_keys_lead_to_tables(
    key: Seq<char>,
    node: NodeView,
    fields: Seq<(Seq<char>, NodeView)>,
    path: Seq<char>,
)
    requires
        node.entries == Some(fields),
    ensures
        path.len() == 0 ==> leaves(seq![(key, node)], path) == leaves(fields, key),
        path.len() > 0 ==> leaves(seq![(key, node)], path) == leaves(fields, path + seq!['.'] + key),
{
    let one = seq![(key, node)];
    assert(one.drop_first() =~= seq![]);
    reveal_with_fuel(child_leaves, 2);
    assert(all_tables(one));
    assert(path.push('.') + key =~= path + seq!['.'] + key);
    assert(child_leaves(one, path) =~= leaves(fields, child_path(path, key)));
}

/// Tables side by side stand for what each stands for, one after the other.
pub proof fn law_tables_side_by_side(
    a: Seq<(Seq<char>, NodeView)>,
    b: Seq<(Seq<char>, NodeView)>,
    path: Seq<char>,
)
    requires
        a.len() > 0,
        b.len() > 0,
        forall|i: int| 0 <= i < a.len() ==> (#[trigger] a[i]).1.entries is Some,
        forall|i: int| 0 <= i < b.len() ==> (#[trigger] b[i]).1.entries is Some,
    ensures
        leaves(a + b, path) == leaves(a, path) + leaves(b, path),
{
    assert forall|i: int| 0 <= i < (a + b).len() implies (
    #[trigger] (a + b)[i]).1.entries is Some by {
        if i < a.len() {
            assert((a + b)[i] == a[i]);
        } else {
            assert((a + b)[i] == b[i - a.len()]);
        }
    }
    lemma_leaves_side_by_side(a, b, path);
}

/// The tables in entries side by side, one after the other.
pub proof fn lemma_leaves_side_by_side(
    a: Seq<(Seq<char>, NodeView)>,
    b: Seq<(Seq<char>, NodeView)>,
    path: Seq<char>,
)
    ensures
        child_leaves(a + b, path) == child_leaves(a, path) + child_leaves(b, path),
    decreases a.len(),
{
    if a.len() == 0 {
        assert(a + b =~= b);
        assert(child_leaves(a, path) + child_leaves(b, path) =~= child_leaves(b, path));
    } else {
        assert((a + b).drop_first() =~= a.drop_first() + b);
        lemma_leaves_side_by_side(a.drop_first(), b, path);
        assert(child_leaves(a + b, path) =~= child_leaves(a, path) + child_leaves(b, path));
    }
}

/// The entry is the first of this name.
pub open spec fn names_first(
    fields: Seq<(Seq<char>, NodeView)>,
    name: Seq<char>,
    i: int,
) -> bool {
    &&& 0 <= i < fields.len()
    &&& fields[i].0 == name
    &&& forall|j: int| 0 <= j < i ==> (#[trigger] fields[j]).0 != name
}

proof fn lemma_field(fields: Seq<(Seq<char>, NodeView)>, name: Seq<char>)
    ensures
        forall|i: int| #[trigger]
            names_first(fields, name, i) ==> field(fields, name) == fields[i].1.number.ok(),
        (forall|i: int| 0 <= i < fields.len() ==> (#[trigger] fields[i]).0 != name) ==> field(
            fields,
            name,
        ) is None,
    decreases fields.len(),
{
    if fields.len() > 0 && fields[0].0 != name {
        let rest = fields.drop_first();
        lemma_field(rest, name);
        assert forall|i: int| #[trigger] names_first(fields, name, i) implies field(fields, name)
            == fields[i].1.number.ok() by {
            assert(fields[i] == rest[i - 1]);
            assert forall|j: int| 0 <= j < i - 1 implies (#[trigger] rest[j]).0 != name by {
                assert(fields[j + 1].0 != name);
            }
            assert(names_first(rest, name, i - 1));
        }
        if forall|i: int| 0 <= i < fields.len() ==> (#[trigger] fields[i]).0 != name {
            assert forall|i: int| 0 <= i < rest.len() implies (#[trigger] rest[i]).0 != name by {
                assert(fields[i + 1].0 != name);
            }
        }
    } else if fields.len() > 0 {
        assert forall|i: int| #[trigger] names_first(fields, name, i) implies i == 0 by {
            if i > 0 {
                assert(fields[0].0 != name);
            }
        }
    }
}

proof fn lemma_no_fault(fields: Seq<(Seq<char>, NodeView)>)
    ensures
        first_fault(fields) is None <==> forall|i: int|
            0 <= i < fields.len() ==> field_fault((#[trigger] fields[i]).0, fields[i].1) is None,
    decreases fields.len(),
{
    if fields.len() > 0 {
        let rest = fields.drop_first();
        lemma_no_fault(rest);
        if first_fault(fields) is None {
            assert forall|i: int| 0 <= i < fields.len() implies field_fault(
                (#[trigger] fields[i]).0,
                fields[i].1,
            ) is None by {
                if i > 0 {
                    assert(rest[i - 1] == fields[i]);
                }
            }
        }
        if forall|i: int|
            0 <= i < fields.len() ==> field_fault((#[trigger] fields[i]).0, fields[i].1) is None {
            assert(field_fault(fields[0].0, fields[0].1) is None);
            assert forall|i: int| 0 <= i < rest.len() implies field_fault(
                (#[trigger] rest[i]).0,
                rest[i].1,
            ) is None by {
                assert(rest[i] == fields[i + 1]);
            }
        }
    }
}

proof fn lemma_first_of_name(fields: Seq<(Seq<char>, NodeView)>, name: Seq<char>, i: int)
    requires
        0 <= i < fields.len(),
        fields[i].0 == name,
    ensures
        exists|k: int| #[trigger] names_first(fields, name, k),
    decreases i,
{
    if forall|j: int| 0 <= j < i ==> (#[trigger] fields[j]).0 != name {
        assert(names_first(fields, name, i));
    } else {
        let j = choose|j: int| 0 <= j < i && (#[trigger] fields[j]).0 == name;
        lemma_first_of_name(fields, name, j);
    }
}

/// The rule of a table carries the path as its bundle ID, and the table's own
/// numbers, each under its own name. A coordinate is absent exactly if no entry has
/// its name.
pub proof fn law_a_rule_carries_the_numbers_of_its_table(leaf: Leaf, i: int)
    requires
        rule_of(leaf) is Ok,
    ensures
        rule_of(leaf)->Ok_0.bundle_id == leaf.path,
        names_first(leaf.fields, "width"@, i) ==> leaf.fields[i].1.number == Ok::<u64, Seq<char>>(
            rule_of(leaf)->Ok_0.width,
        ),
        names_first(leaf.fields, "height"@, i) ==> leaf.fields[i].1.number == Ok::<u64, Seq<char>>(
            rule_of(leaf)->Ok_0.height,
        ),
        names_first(leaf.fields, "x"@, i) ==> rule_of(leaf)->Ok_0.x is Some
            && leaf.fields[i].1.number == Ok::<u64, Seq<char>>(rule_of(leaf)->Ok_0.x->Some_0),
        names_first(leaf.fields, "y"@, i) ==> rule_of(leaf)->Ok_0.y is Some
            && leaf.fields[i].1.number == Ok::<u64, Seq<char>>(rule_of(leaf)->Ok_0.y->Some_0),
        rule_of(leaf)->Ok_0.x is None <==> forall|k: int|
            0 <= k < leaf.fields.len() ==> (#[trigger] leaf.fields[k]).0 != "x"@,
        rule_of(leaf)->Ok_0.y is None <==> forall|k: int|
            0 <= k < leaf.fields.len() ==> (#[trigger] leaf.fields[k]).0 != "y"@,
{
    let fields = leaf.fields;
    lemma_field(fields, "width"@);
    lemma_field(fields, "height"@);
    lemma_field(fields, "x"@);
    lemma_field(fields, "y"@);
    lemma_no_fault(fields);
    if 0 <= i < fields.len() {
        assert(field_fault(fields[i].0, fields[i].1) is None);
    }
    lemma_field_is_absent(fields, "x"@);
    lemma_field_is_absent(fields, "y"@);
}

proof fn lemma_field_is_absent(fields: Seq<(Seq<char>, NodeView)>, name: Seq<char>)
    requires
        first_fault(fields) is None,
    ensures
        field(fields, name) is None <==> forall|k: int|
            0 <= k < fields.len() ==> (#[trigger] fields[k]).0 != name,
{
    lemma_field(fields, name);
    lemma_no_fault(fields);
    if exists|k: int| 0 <= k < fields.len() && (#[trigger] fields[k]).0 == name {
        let k = choose|k: int| 0 <= k < fields.len() && (#[trigger] fields[k]).0 == name;
        lemma_first_of_name(fields, name, k);
        let l = choose|l: int| #[trigger] names_first(fields, name, l);
        assert(field_fault(fields[l].0, fields[l].1) is None);
    }
}

/// A table stands for a rule exactly if its path is a bundle ID, all its entries
/// are numbers with the name of a field, the sizes are there, finite and positive,
/// and the coordinates that are there are finite.
pub proof fn law_tables_that_stand_for_rules(leaf: Leaf)
    ensures
        rule_of(leaf) is Ok <==> {
            &&& leaf.path.len() > 0
            &&& forall|k: int| 0 <= k < leaf.path.len() ==> !white_space(#[trigger] leaf.path[k])
            &&& forall|k: int|
                0 <= k < leaf.fields.len() ==> (#[trigger] leaf.fields[k]).1.number is Ok && (
                leaf.fields[k].0 == "width"@ || leaf.fields[k].0 == "height"@ || leaf.fields[k].0
                    == "x"@ || leaf.fields[k].0 == "y"@)
            &&& exists|k: int|
                #[trigger] names_first(leaf.fields, "width"@, k) && positive_finite(
                    leaf.fields[k].1.number->Ok_0,
                )
            &&& exists|k: int|
                #[trigger] names_first(leaf.fields, "height"@, k) && positive_finite(
                    leaf.fields[k].1.number->Ok_0,
                )
            &&& forall|k: int| #[trigger]
                names_first(leaf.fields, "x"@, k) ==> finite(leaf.fields[k].1.number->Ok_0)
            &&& forall|k: int| #[trigger]
                names_first(leaf.fields, "y"@, k) ==> finite(leaf.fields[k].1.number->Ok_0)
        },
{
    let fields = leaf.fields;
    lemma_field(fields, "width"@);
    lemma_field(fields, "height"@);
    lemma_field(fields, "x"@);
    lemma_field(fields, "y"@);
    lemma_no_fault(fields);
    if first_fault(fields) is None {
        lemma_field_is_absent(fields, "width"@);
        lemma_field_is_absent(fields, "height"@);
        lemma_field_is_absent(fields, "x"@);
        lemma_field_is_absent(fields, "y"@);
        assert forall|k: int| 0 <= k < fields.len() implies (#[trigger] fields[k]).1.number is Ok
            && known_field(fields[k].0) by {
            assert(field_fault(fields[k].0, fields[k].1) is None);
        }
        if field(fields, "width"@) is Some {
            let k = choose|k: int| 0 <= k < fields.len() && (#[trigger] fields[k]).0 == "width"@;
            lemma_first_of_name(fields, "width"@, k);
        }
        if field(fields, "height"@) is Some {
            let k = choose|k: int| 0 <= k < fields.len() && (#[trigger] fields[k]).0 == "height"@;
            lemma_first_of_name(fields, "height"@, k);
        }
        if field(fields, "x"@) is Some {
            let k = choose|k: int| 0 <= k < fields.len() && (#[trigger] fields[k]).0 == "x"@;
            lemma_first_of_name(fields, "x"@, k);
        }
        if field(fields, "y"@) is Some {
            let k = choose|k: int| 0 <= k < fields.len() && (#[trigger] fields[k]).0 == "y"@;
            lemma_first_of_name(fields, "y"@, k);
        }
    } else {
        let k = choose|k: int|
            0 <= k < fields.len() && field_fault(
                (#[trigger] fields[k]).0,
                fields[k].1,
            ) is Some;
        assert(!(fields[k].1.number is Ok && known_field(fields[k].0)));
    }
}

/// The entry is the first that is no field of a rule.
pub open spec fn faulty_first(fields: Seq<(Seq<char>, NodeView)>, i: int) -> bool {
    &&& 0 <= i < fields.len()
    &&& fields[i].1.number is Err || !known_field(fields[i].0)
    &&& forall|j: int|
        0 <= j < i ==> (#[trigger] fields[j]).1.number is Ok && known_field(fields[j].0)
}

proof fn lemma_first_fault(fields: Seq<(Seq<char>, NodeView)>, i: int)
    requires
        faulty_first(fields, i),
    ensures
        first_fault(fields) == field_fault(fields[i].0, fields[i].1),
    decreases fields.len(),
{
    if i > 0 {
        let rest = fields.drop_first();
        assert(fields[0].1.number is Ok && known_field(fields[0].0));
        assert forall|j: int| 0 <= j < i - 1 implies (#[trigger] rest[j]).1.number is Ok
            && known_field(rest[j].0) by {
            assert(rest[j] == fields[j + 1]);
        }
        assert(rest[i - 1] == fields[i]);
        lemma_first_fault(rest, i - 1);
    }
}

/// Why a table stands for no rule: first the path is looked at, then the entries in
/// their order, then what is missing, and the values last.
pub proof fn law_refusals(leaf: Leaf, i: int)
    ensures
        leaf.path.len() == 0 || has_white_space(leaf.path) ==> rule_of(leaf) == Err::<
            RuleView,
            Seq<char>,
        >("expected [application.bundle.id] with width and height"@),
        leaf.path.len() > 0 && !has_white_space(leaf.path) ==> {
            &&& faulty_first(leaf.fields, i) && !known_field(leaf.fields[i].0) ==> rule_of(leaf)
                == Err::<RuleView, Seq<char>>(
                leaf.path + ": "@ + ("unknown field `"@ + leaf.fields[i].0
                    + "`, expected one of `width`, `height`, `x`, `y`\n"@),
            )
            &&& faulty_first(leaf.fields, i) && known_field(leaf.fields[i].0) ==> rule_of(leaf)
                == Err::<RuleView, Seq<char>>(
                leaf.path + ": "@ + (leaf.fields[i].1.number->Err_0 + "\nin `"@ + leaf.fields[i].0
                    + "`\n"@),
            )
            &&& first_fault(leaf.fields) is None ==> {
                let width = field(leaf.fields, "width"@);
                let height = field(leaf.fields, "height"@);
                &&& width is None ==> rule_of(leaf) == Err::<RuleView, Seq<char>>(
                    leaf.path + ": "@ + "missing field `width`\n"@,
                )
                &&& width is Some && height is None ==> rule_of(leaf) == Err::<
                    RuleView,
                    Seq<char>,
                >(leaf.path + ": "@ + "missing field `height`\n"@)
                &&& width is Some && height is Some && !(positive_finite(width->Some_0)
                    && positive_finite(height->Some_0)) ==> rule_of(leaf) == Err::<
                    RuleView,
                    Seq<char>,
                >(leaf.path + ": "@ + "width and height must be finite and positive"@)
                &&& width is Some && height is Some && positive_finite(width->Some_0)
                    && positive_finite(height->Some_0) && rule_of(leaf) is Err ==> rule_of(leaf)
                    == Err::<RuleView, Seq<char>>(leaf.path + ": "@ + "x and y must be finite"@)
            }
        },
{
    if faulty_first(leaf.fields, i) {
        lemma_first_fault(leaf.fields, i);
    }
}

/// What is wrong with a document that is no configuration: what is wrong with the
/// first innermost table that stands for no rule or names an application again.
pub proof fn law_the_first_wrong_table_is_told(
    entries: Seq<(Seq<char>, NodeView)>,
    i: int,
)
    requires
        0 <= i < leaves(entries, seq![]).len(),
        forall|j: int| 0 <= j < i ==> rule_of(#[trigger] leaves(entries, seq![])[j]) is Ok,
        forall|j: int, k: int|
            #![trigger leaves(entries, seq![])[j], leaves(entries, seq![])[k]]
            0 <= j < k < i ==> leaves(entries, seq![])[j].path != leaves(entries, seq![])[k].path,
    ensures
        rule_of(leaves(entries, seq![])[i]) matches Err(reason) ==> configured(entries) == Err::<
            Map<Seq<char>, RuleView>,
            Seq<char>,
        >(reason),
        rule_of(leaves(entries, seq![])[i]) is Ok && (exists|j: int|
            0 <= j < i && (#[trigger] leaves(entries, seq![])[j]).path == leaves(
                entries,
                seq![],
            )[i].path) ==> configured(entries) == Err::<Map<Seq<char>, RuleView>, Seq<char>>(
            "duplicate application: "@ + leaves(entries, seq![])[i].path,
        ),
{
    let list = leaves(entries, seq![]);
    let front = list.take(i);
    let none = Map::<Seq<char>, RuleView>::empty();
    assert(list =~= front + list.skip(i));
    lemma_with_leaves_concat(front, list.skip(i), none);
    lemma_with_leaves(front, none);
    assert(addable(front, none)) by {
        assert forall|j: int| 0 <= j < front.len() implies rule_of(#[trigger] front[j]) is Ok by {
            assert(front[j] == list[j]);
        }
        assert forall|j: int, k: int|
            #![trigger front[j], front[k]]
            0 <= j < k < front.len() implies front[j].path != front[k].path by {
            assert(list[j].path != list[k].path);
        }
    }
    if exists|j: int| 0 <= j < i && (#[trigger] list[j]).path == list[i].path {
        let j = choose|j: int| 0 <= j < i && (#[trigger] list[j]).path == list[i].path;
        assert(front[j] == list[j]);
    }
    assert(list.skip(i)[0] == list[i]);
}

/// A text is read as the document that it holds; one that holds none is refused for
/// the reason that it holds none.
pub proof fn law_what_a_text_is_read_as(document: Result<NodeView, Seq<char>>)
    ensures
        document matches Err(reason) ==> parsed(document) == Err::<
            Map<Seq<char>, RuleView>,
            Seq<char>,
        >(reason),
        document matches Ok(node) ==> (node.entries matches Some(entries) ==> parsed(document)
            == configured(entries)),
{
}

/// What is read of the entries of a table: the rule that carries their numbers, each
/// under its own name, and the path as its bundle ID.
pub proof fn law_rules_that_are_read(
    fields: &Vec<(String, Node)>,
    path: &str,
    r: Result<Rule, String>,
    i: int,
)
    requires
        call_ensures(read_rule, (fields, path), r),
        0 <= i < fields@.len(),
        forall|j: int| 0 <= j < i ==> (#[trigger] fields@[j]).0@ != fields@[i].0@,
    ensures
        r matches Ok(rule) ==> {
            &&& rule.bundle_id@ == path@
            &&& fields@[i].0@ == "width"@ ==> fields@[i].1.number == Ok::<u64, String>(rule.width)
            &&& fields@[i].0@ == "height"@ ==> fields@[i].1.number == Ok::<u64, String>(rule.height)
            &&& fields@[i].0@ == "x"@ ==> rule.x is Some && fields@[i].1.number == Ok::<
                u64,
                String,
            >(rule.x->Some_0)
            &&& fields@[i].0@ == "y"@ ==> rule.y is Some && fields@[i].1.number == Ok::<
                u64,
                String,
            >(rule.y->Some_0)
            &&& fields@[i].0@ == "width"@ || fields@[i].0@ == "height"@ || fields@[i].0@ == "x"@
                || fields@[i].0@ == "y"@
        },
        fields@[i].1.number is Err ==> r is Err,
{
    let views = entry_views(fields@);
    let leaf = Leaf { path: path@, fields: views };
    let name = fields@[i].0@;
    assert forall|j: int| 0 <= j < i implies (#[trigger] views[j]).0 != name by {
        assert(fields@[j].0@ != name);
    }
    assert(names_first(views, name, i));
    assert(views[i].1 == fields@[i].1@);
    law_tables_that_stand_for_rules(leaf);
    if r is Ok {
        law_a_rule_carries_the_numbers_of_its_table(leaf, i);
        assert(views[i].1.number is Ok);
    }
}

/// A text gives a configuration exactly if it holds a document that is one, and then
/// the rule of each innermost table of it, under its path, and nothing else.
pub proof fn law_configurations_that_are_read(
    source: &str,
    r: Result<Config, String>,
    entries: Seq<(Seq<char>, NodeView)>,
    i: int,
    id: Seq<char>,
)
    requires
        call_ensures(parse_config, (source,), r),
        toml_document(source@) is Ok,
        toml_document(source@)->Ok_0.entries == Some(entries),
    ensures
        r is Ok <==> {
            let list = leaves(entries, seq![]);
            &&& forall|j: int| 0 <= j < list.len() ==> rule_of(#[trigger] list[j]) is Ok
            &&& forall|j: int, k: int|
                #![trigger list[j], list[k]]
                0 <= j < k < list.len() ==> list[j].path != list[k].path
        },
        r matches Ok(config) ==> (0 <= i < leaves(entries, seq![]).len()
            ==> config@.contains_key(leaves(entries, seq![])[i].path) && rule_of(
            leaves(entries, seq![])[i],
        ) == Ok::<RuleView, Seq<char>>(config@[leaves(entries, seq![])[i].path])),
        r matches Ok(config) ==> (config@.contains_key(id) ==> config@[id].bundle_id == id
            && config@[id].valid() && exists|j: int|
            0 <= j < leaves(entries, seq![]).len() && (#[trigger] leaves(entries, seq![])[j]).path
                == id),
{
    law_configurations(entries);
    if r is Ok {
        law_rules_of_a_configuration(entries);
        if r->Ok_0@.contains_key(id) {
            law_rules_are_valid(entries, id);
        }
    }
}

/// A text that holds no document is refused for the parser's reason.
pub proof fn law_texts_without_a_document(source: &str, r: Result<Config, String>)
    requires
        call_ensures(parse_config, (source,), r),
        toml_document(source@) is Err,
    ensures
        r is Err && toml_document(source@) == Err::<NodeView, Seq<char>>(r->Err_0@),
{
}

/// The entries of a document give a configuration exactly if each of its innermost
/// tables stands for a rule and no two name the same application, and then these rules.
pub proof fn law_configurations_that_are_built(
    entries: &Vec<(String, Node)>,
    r: Result<Config, String>,
    i: int,
)
    requires
        call_ensures(build_config, (entries,), r),
    ensures
        r is Ok <==> {
            let list = leaves(entry_views(entries@), seq![]);
            &&& forall|j: int| 0 <= j < list.len() ==> rule_of(#[trigger] list[j]) is Ok
            &&& forall|j: int, k: int|
                #![trigger list[j], list[k]]
                0 <= j < k < list.len() ==> list[j].path != list[k].path
        },
        r matches Ok(config) ==> (0 <= i < leaves(entry_views(entries@), seq![]).len()
            ==> config@.contains_key(leaves(entry_views(entries@), seq![])[i].path) && rule_of(
            leaves(entry_views(entries@), seq![])[i],
        ) == Ok::<RuleView, Seq<char>>(
            config@[leaves(entry_views(entries@), seq![])[i].path],
        )),
{
    law_configurations(entry_views(entries@));
    if r is Ok {
        law_rules_of_a_configuration(entry_views(entries@));
    }
}

} // verus!
