//! The configuration: which applications have their windows adjusted, and how.
use vstd::prelude::*;

use crate::number::finite;
use crate::number::positive_finite;
use crate::text::has_white_space;
use crate::text::same;

verus! {

/// The configuration built into the program: this is where it is edited.
pub const EMBEDDED_CONFIG: &'static str =
    "[com.apple.finder]\nwidth = 860\nheight = 660\n# x = 434\n# y = 218\n";

/// The mathematical value of a rule.
pub ghost struct RuleView {
    pub bundle_id: Seq<char>,
    pub width: u64,
    pub height: u64,
    pub x: Option<u64>,
    pub y: Option<u64>,
}

/// How the windows of one application are adjusted. Sizes and coordinates are
/// IEEE 754 binary64 bit patterns of logical points.
#[derive(Debug)]
pub struct Rule {
    pub bundle_id: String,
    pub width: u64,
    pub height: u64,
    pub x: Option<u64>,
    pub y: Option<u64>,
}

impl View for Rule {
    type V = RuleView;

    open spec fn view(&self) -> RuleView {
        RuleView {
            bundle_id: self.bundle_id@,
            width: self.width,
            height: self.height,
            x: self.x,
            y: self.y,
        }
    }
}

impl Clone for Rule {
    fn clone(&self) -> (r: Self)
        ensures
            r@ == self@,
    {
        Rule {
            bundle_id: self.bundle_id.clone(),
            width: self.width,
            height: self.height,
            x: self.x,
            y: self.y,
        }
    }
}

impl RuleView {
    /// What every rule of a configuration satisfies: a bundle ID without white
    /// space, a finite positive size, and finite coordinates where there are any.
    pub open spec fn valid(self) -> bool {
        &&& self.bundle_id.len() > 0
        &&& !has_white_space(self.bundle_id)
        &&& positive_finite(self.width)
        &&& positive_finite(self.height)
        &&& self.x matches Some(x) ==> finite(x)
        &&& self.y matches Some(y) ==> finite(y)
    }
}

/// The rules of a list by their bundle IDs.
pub open spec fn by_bundle_id(rules: Seq<RuleView>) -> Map<Seq<char>, RuleView>
    decreases rules.len(),
{
    if rules.len() == 0 {
        Map::empty()
    } else {
        by_bundle_id(rules.drop_last()).insert(rules.last().bundle_id, rules.last())
    }
}

spec fn rule_views(rules: Seq<Rule>) -> Seq<RuleView> {
    Seq::new(rules.len(), |i: int| rules[i]@)
}

spec fn distinct(rules: Seq<Rule>) -> bool {
    forall|i: int, j: int|
        #![trigger rules[i], rules[j]]
        0 <= i < j < rules.len() ==> rules[i].bundle_id@ != rules[j].bundle_id@
}

proof fn lemma_by_bundle_id(rules: Seq<RuleView>)
    requires
        forall|i: int, j: int|
            #![trigger rules[i], rules[j]]
            0 <= i < j < rules.len() ==> rules[i].bundle_id != rules[j].bundle_id,
    ensures
        forall|i: int|
            0 <= i < rules.len() ==> {
                let id = (#[trigger] rules[i]).bundle_id;
                by_bundle_id(rules).contains_key(id) && by_bundle_id(rules)[id] == rules[i]
            },
        forall|id: Seq<char>| #[trigger]
            by_bundle_id(rules).contains_key(id) ==> exists|i: int|
                0 <= i < rules.len() && (#[trigger] rules[i]).bundle_id == id,
    decreases rules.len(),
{
    if rules.len() > 0 {
        let front = rules.drop_last();
        lemma_by_bundle_id(front);
        assert forall|i: int| 0 <= i < rules.len() implies {
            let id = (#[trigger] rules[i]).bundle_id;
            by_bundle_id(rules).contains_key(id) && by_bundle_id(rules)[id] == rules[i]
        } by {
            if i < front.len() {
                assert(front[i] == rules[i]);
                assert(rules[i].bundle_id != rules[rules.len() - 1].bundle_id);
            }
        }
        assert forall|id: Seq<char>| #[trigger]
            by_bundle_id(rules).contains_key(id) implies exists|i: int|
            0 <= i < rules.len() && (#[trigger] rules[i]).bundle_id == id by {
            if id == rules.last().bundle_id {
                assert(rules[rules.len() - 1].bundle_id == id);
            } else {
                assert(by_bundle_id(front).contains_key(id));
                let i = choose|i: int| 0 <= i < front.len() && (#[trigger] front[i]).bundle_id == id;
                assert(rules[i].bundle_id == id);
            }
        }
    }
}

/// Rules by bundle ID, no two of them for the same application.
#[derive(Debug)]
pub struct Config {
    rules: Vec<Rule>,
}

impl View for Config {
    type V = Map<Seq<char>, RuleView>;

    closed spec fn view(&self) -> Map<Seq<char>, RuleView> {
        by_bundle_id(rule_views(self.rules@))
    }
}

impl Config {
    #[verifier::type_invariant]
    spec fn nothing_occurs_twice(self) -> bool {
        distinct(self.rules@)
    }

    /// A configuration without rules.
    pub fn new() -> (r: Self)
        ensures
            r@ == Map::<Seq<char>, RuleView>::empty(),
    {
        Config { rules: Vec::new() }
    }

    fn position(&self, bundle_id: &str) -> (r: Option<usize>)
        ensures
            match r {
                Some(i) => {
                    &&& i < self.rules@.len()
                    &&& self.rules@[i as int].bundle_id@ == bundle_id@
                    &&& self@.contains_key(bundle_id@)
                    &&& self@[bundle_id@] == self.rules@[i as int]@
                },
                None => {
                    &&& !self@.contains_key(bundle_id@)
                    &&& forall|i: int|
                        0 <= i < self.rules@.len() ==> (#[trigger] self.rules@[i]).bundle_id@
                            != bundle_id@
                },
            },
    {
        proof {
            use_type_invariant(self);
            lemma_by_bundle_id(rule_views(self.rules@));
        }
        let ghost views = rule_views(self.rules@);
        let mut i: usize = 0;
        while i < self.rules.len()
            invariant
                i <= self.rules@.len(),
                forall|j: int|
                    0 <= j < i ==> (#[trigger] self.rules@[j]).bundle_id@ != bundle_id@,
            decreases self.rules@.len() - i,
        {
            if same(self.rules[i].bundle_id.as_str(), bundle_id) {
                proof {
                    use_type_invariant(self);
                    lemma_by_bundle_id(rule_views(self.rules@));
                    assert(rule_views(self.rules@)[i as int].bundle_id == bundle_id@);
                }
                return Some(i);
            }
            i += 1;
        }
        proof {
            if self@.contains_key(bundle_id@) {
                let k = choose|k: int|
                    0 <= k < views.len() && (#[trigger] views[k]).bundle_id == bundle_id@;
                assert(self.rules@[k].bundle_id@ == bundle_id@);
            }
        }
        None
    }

    /// The rule for an application.
    pub fn get(&self, bundle_id: &str) -> (r: Option<&Rule>)
        ensures
            match r {
                Some(rule) => self@.contains_key(bundle_id@) && self@[bundle_id@] == rule@,
                None => !self@.contains_key(bundle_id@),
            },
    {
        match self.position(bundle_id) {
            Some(i) => Some(&self.rules[i]),
            None => None,
        }
    }

    /// Tells whether there is a rule for an application.
    pub fn contains_key(&self, bundle_id: &str) -> (r: bool)
        ensures
            r == self@.contains_key(bundle_id@),
    {
        self.position(bundle_id).is_some()
    }

    /// Adds the rule for an application that has none yet; tells whether it
    /// could be added.
    pub fn insert(&mut self, rule: Rule) -> (added: bool)
        ensures
            added == !old(self)@.contains_key(rule@.bundle_id),
            final(self)@ == if added {
                old(self)@.insert(rule@.bundle_id, rule@)
            } else {
                old(self)@
            },
    {
        if self.position(rule.bundle_id.as_str()).is_some() {
            return false;
        }
        proof {
            use_type_invariant(&*self);
        }
        let ghost before = self.rules@;
        let mut rules: Vec<Rule> = Vec::new();
        std::mem::swap(&mut rules, &mut self.rules);
        rules.push(rule);
        proof {
            assert(rule_views(rules@).drop_last() =~= rule_views(before));
            assert(rule_views(rules@).last() == rule@);
        }
        self.rules = rules;
        true
    }
}

/// A rule is worth its own fields.
pub proof fn law_values_of_rules(rule: Rule)
    ensures
        rule@.bundle_id == rule.bundle_id@,
        rule@.width == rule.width,
        rule@.height == rule.height,
        rule@.x == rule.x,
        rule@.y == rule.y,
{
}

/// What is looked up is what was inserted: a rule under its own bundle ID, unless one
/// was there, and any other as it was.
pub proof fn law_insertions(
    config: &mut Config,
    rule: Rule,
    added: bool,
    after: &Config,
    id: &str,
    found: Option<&Rule>,
    is_there: bool,
)
    requires
        call_ensures(Config::insert, (config, rule), added),
        after@ == final(config)@,
        call_ensures(Config::get, (after, id), found),
        call_ensures(Config::contains_key, (after, id), is_there),
    ensures
        is_there <==> found is Some,
        added <==> !old(config)@.contains_key(rule.bundle_id@),
        added && id@ == rule.bundle_id@ ==> found is Some && found->Some_0@ == rule@,
        id@ != rule.bundle_id@ || !added ==> (is_there <==> old(config)@.contains_key(id@)),
        (id@ != rule.bundle_id@ || !added) && is_there ==> found->Some_0@ == old(config)@[id@],
{
}

/// A new configuration has no rule, and a copy of a rule is worth the same.
pub proof fn law_new_configurations(config: Config, id: &str, found: Option<&Rule>, rule: &Rule, copy: Rule)
    requires
        call_ensures(Config::new, (), config),
        call_ensures(Config::get, (&config, id), found),
        call_ensures(Rule::clone, (rule,), copy),
    ensures
        found is None,
        copy@ == rule@,
{
}

} // verus!
