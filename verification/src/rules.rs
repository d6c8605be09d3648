//! Rules and their evaluation against the focused window.
//!
//! A rule pairs a compiled pattern with the attribute it targets and the
//! optional commands to dispatch on match and on unmatch. A rule set is an
//! ordered sequence of independent rules: every rule is evaluated on every
//! focus change, and each may contribute one action.

use vstd::prelude::*;

use crate::backend::{Backend, WindowAttribute};
use crate::pattern::{regex_compile, regex_is_match, regex_match, regex_ok, regex_source};
use crate::segments::{class_segments, split_class_segments};

verus! {

/// The mathematical content of a [`Rule`]: the pattern's source text, the
/// targeted attribute, and the two optional command strings.
pub struct RuleView {
    pub pattern: Seq<char>,
    pub attribute: WindowAttribute,
    pub on_match: Option<Seq<char>>,
    pub on_unmatch: Option<Seq<char>>,
}

/// The text of an optional command string.
pub open spec fn opt_text(o: Option<String>) -> Option<Seq<char>> {
    match o {
        Some(s) => Some(s@),
        None => None,
    }
}

/// Whether `pattern` matches the attribute value `value`: against the raw
/// value for a window name, against any non-empty NUL-separated segment for
/// a window class.
pub open spec fn spec_value_matches(
    pattern: Seq<char>,
    attribute: WindowAttribute,
    value: Seq<char>,
) -> bool {
    match attribute {
        WindowAttribute::Name => regex_match(pattern, value),
        WindowAttribute::Class => exists|i: int|
            0 <= i < class_segments(value).len() && regex_match(
                pattern,
                #[trigger] class_segments(value)[i],
            ),
    }
}

/// The action a rule selects for an attribute value: the match action when
/// the value is present and matches, the unmatch action otherwise. Absence
/// of a value is a first-class non-match, never an error.
pub open spec fn spec_rule_action(rule: RuleView, value: Option<Seq<char>>) -> Option<Seq<char>> {
    let matched = match value {
        Some(v) => spec_value_matches(rule.pattern, rule.attribute, v),
        None => false,
    };
    if matched {
        rule.on_match
    } else {
        rule.on_unmatch
    }
}

/// The attribute value a rule looks at, out of the two fetched per pass.
pub open spec fn spec_rule_value(
    attribute: WindowAttribute,
    name_value: Option<Seq<char>>,
    class_value: Option<Seq<char>>,
) -> Option<Seq<char>> {
    match attribute {
        WindowAttribute::Name => name_value,
        WindowAttribute::Class => class_value,
    }
}

/// Whether a rule matches, given the attribute values of one pass.
pub open spec fn spec_matched(
    rule: RuleView,
    name_value: Option<Seq<char>>,
    class_value: Option<Seq<char>>,
) -> bool {
    match spec_rule_value(rule.attribute, name_value, class_value) {
        Some(v) => spec_value_matches(rule.pattern, rule.attribute, v),
        None => false,
    }
}

/// The action a rule selects, given the attribute values of one pass.
pub open spec fn spec_selected_action(
    rule: RuleView,
    name_value: Option<Seq<char>>,
    class_value: Option<Seq<char>>,
) -> Option<Seq<char>> {
    spec_rule_action(rule, spec_rule_value(rule.attribute, name_value, class_value))
}

/// The actions one evaluation pass dispatches: every rule in order selects
/// its action, and rules whose selected slot holds no command contribute
/// nothing.
pub open spec fn spec_actions(
    rules: Seq<RuleView>,
    name_value: Option<Seq<char>>,
    class_value: Option<Seq<char>>,
) -> Seq<Seq<char>>
    decreases rules.len(),
{
    if rules.len() == 0 {
        Seq::empty()
    } else {
        let rest = spec_actions(rules.drop_last(), name_value, class_value);
        match spec_selected_action(rules.last(), name_value, class_value) {
            Some(a) => rest.push(a),
            None => rest,
        }
    }
}

/// One matcher rule: a compiled pattern, the attribute it targets, and the
/// optional commands to dispatch on match and on unmatch. A rule with
/// neither command is legal and never dispatches.
pub struct Rule {
    regex: regex::Regex,
    attribute: WindowAttribute,
    on_match: Option<String>,
    on_unmatch: Option<String>,
}

impl View for Rule {
    type V = RuleView;

    closed spec fn view(&self) -> RuleView {
        RuleView {
            pattern: regex_source(self.regex),
            attribute: self.attribute,
            on_match: opt_text(self.on_match),
            on_unmatch: opt_text(self.on_unmatch),
        }
    }
}

impl Rule {
    /// Builds a rule from a pattern's source text; `None` exactly when the
    /// text is not a valid regular expression.
    pub fn new(
        pattern: &str,
        attribute: WindowAttribute,
        on_match: Option<String>,
        on_unmatch: Option<String>,
    ) -> (r: Option<Rule>)
        ensures
            r is Some <==> regex_ok(pattern@),
            r matches Some(rule) ==> rule@ == (RuleView {
                pattern: pattern@,
                attribute,
                on_match: opt_text(on_match),
                on_unmatch: opt_text(on_unmatch),
            }),
    {
        match regex_compile(pattern) {
            Some(re) => Some(
                Rule { regex: re, attribute, on_match, on_unmatch },
            ),
            None => None,
        }
    }

    /// The attribute this rule targets.
    pub fn attribute(&self) -> (a: WindowAttribute)
        ensures
            a == self@.attribute,
    {
        self.attribute
    }
}

/// Whether the compiled pattern matches the attribute value, with the
/// class/name asymmetry: a name is matched raw, a class by any of its
/// non-empty segments.
fn value_matches(re: &regex::Regex, attribute: WindowAttribute, value: &str) -> (r: bool)
    ensures
        r == spec_value_matches(regex_source(*re), attribute, value@),
{
    match attribute {
        WindowAttribute::Name => regex_is_match(re, value),
        WindowAttribute::Class => {
            let segs = split_class_segments(value);
            let mut j: usize = 0;
            while j < segs.len()
                invariant
                    attribute is Class,
                    j <= segs.len(),
                    segs@.map_values(|s: String| s@) == class_segments(value@),
                    forall|k: int|
                        0 <= k < j ==> !regex_match(
                            regex_source(*re),
                            #[trigger] class_segments(value@)[k],
                        ),
                decreases segs.len() - j,
            {
                proof {
                    assert(segs@.map_values(|s: String| s@)[j as int] == segs@[j as int]@);
                }
                if regex_is_match(re, segs[j].as_str()) {
                    proof {
                        assert(segs@.map_values(|s: String| s@).len() == segs@.len());
                        assert(regex_match(regex_source(*re), class_segments(value@)[j as int]));
                    }
                    return true;
                }
                j += 1;
            }
            false
        },
    }
}

/// An ordered set of rules, immutable after construction. Order determines
/// dispatch order of the actions; the rules themselves are independent.
pub struct RuleSet {
    rules: Vec<Rule>,
}

impl View for RuleSet {
    type V = Seq<RuleView>;

    closed spec fn view(&self) -> Seq<RuleView> {
        self.rules@.map_values(|r: Rule| r@)
    }
}

impl RuleSet {
    /// Builds the ordered rule set.
    pub fn new(rules: Vec<Rule>) -> (r: RuleSet)
        ensures
            r@ == rules@.map_values(|rule: Rule| rule@),
    {
        RuleSet { rules }
    }

    /// How many rules the set holds.
    pub fn len(&self) -> (n: usize)
        ensures
            n == self@.len(),
    {
        self.rules.len()
    }

    /// Evaluates every rule in order against the two attribute values of
    /// one pass and returns the commands to dispatch, in rule order.
    pub fn evaluate_with_values(
        &self,
        name_value: &Option<String>,
        class_value: &Option<String>,
    ) -> (actions: Vec<String>)
        ensures
            actions@.map_values(|s: String| s@) == spec_actions(
                self@,
                opt_text(*name_value),
                opt_text(*class_value),
            ),
    {
        let ghost rv = self@;
        let ghost nv = opt_text(*name_value);
        let ghost cv = opt_text(*class_value);
        let mut actions: Vec<String> = Vec::new();
        let mut i: usize = 0;
        proof {
            assert(rv.subrange(0, 0) =~= Seq::<RuleView>::empty());
            assert(actions@.map_values(|s: String| s@) =~= Seq::<Seq<char>>::empty());
        }
        while i < self.rules.len()
            invariant
                i <= self.rules.len(),
                rv == self@,
                nv == opt_text(*name_value),
                cv == opt_text(*class_value),
                actions@.map_values(|s: String| s@) == spec_actions(
                    rv.subrange(0, i as int),
                    nv,
                    cv,
                ),
            decreases self.rules.len() - i,
        {
            let rule = &self.rules[i];
            proof {
                assert(rv[i as int] == self.rules@[i as int]@);
            }
            let value: &Option<String> = match rule.attribute {
                WindowAttribute::Name => name_value,
                WindowAttribute::Class => class_value,
            };
            let matched: bool = match value {
                Some(s) => value_matches(&rule.regex, rule.attribute, s.as_str()),
                None => false,
            };
            proof {
                assert(matched == spec_matched(rv[i as int], nv, cv));
            }
            let selected: &Option<String> = if matched {
                &rule.on_match
            } else {
                &rule.on_unmatch
            };
            proof {
                assert(spec_selected_action(rv[i as int], nv, cv) == opt_text(*selected));
            }
            match selected {
                Some(cmd) => {
                    let owned = cmd.clone();
                    proof {
                        assert((actions@.push(owned)).map_values(|s: String| s@)
                            =~= actions@.map_values(|s: String| s@).push(owned@));
                    }
                    actions.push(owned);
                },
                None => {},
            }
            proof {
                assert(rv.subrange(0, i as int + 1).drop_last() =~= rv.subrange(0, i as int));
                assert(rv.subrange(0, i as int + 1).last() == rv[i as int]);
            }
            i += 1;
        }
        proof {
            assert(rv.subrange(0, rv.len() as int) =~= rv);
        }
        actions
    }

    /// One full evaluation pass against the backend: fetches each attribute
    /// kind some rule targets at most once, evaluates every rule against
    /// the fetched values, and returns the commands to dispatch. Whatever
    /// the backend answered, the result is exactly what the rules select
    /// for some pair of attribute values.
    pub fn evaluate<B: Backend>(&self, backend: &mut B) -> (actions: Vec<String>)
        ensures
            exists|nv: Option<Seq<char>>, cv: Option<Seq<char>>|
                actions@.map_values(|s: String| s@) == spec_actions(self@, nv, cv),
    {
        let mut need_name = false;
        let mut need_class = false;
        let mut i: usize = 0;
        while i < self.rules.len()
            invariant
                i <= self.rules.len(),
            decreases self.rules.len() - i,
        {
            match self.rules[i].attribute {
                WindowAttribute::Name => {
                    need_name = true;
                },
                WindowAttribute::Class => {
                    need_class = true;
                },
            }
            i += 1;
        }
        let name_value: Option<String> = if need_name {
            backend.attribute_of_focused_window(WindowAttribute::Name)
        } else {
            None
        };
        let class_value: Option<String> = if need_class {
            backend.attribute_of_focused_window(WindowAttribute::Class)
        } else {
            None
        };
        let actions = self.evaluate_with_values(&name_value, &class_value);
        proof {
            assert(actions@.map_values(|s: String| s@) == spec_actions(
                self@,
                opt_text(name_value),
                opt_text(class_value),
            ));
        }
        actions
    }
}

/// A rule selects its match action exactly when its pattern matches the
/// attribute value (any split segment of it for a class attribute), and its
/// unmatch action otherwise.
pub proof fn lemma_match_selects_action(rule: RuleView, value: Seq<char>)
    ensures
        spec_value_matches(rule.pattern, rule.attribute, value) ==> spec_rule_action(
            rule,
            Some(value),
        ) == rule.on_match,
        !spec_value_matches(rule.pattern, rule.attribute, value) ==> spec_rule_action(
            rule,
            Some(value),
        ) == rule.on_unmatch,
{
}

/// Absence of a focused window, or a failed query, always selects the
/// unmatch action, for every rule: never an error.
pub proof fn lemma_absent_selects_unmatch(rule: RuleView)
    ensures
        spec_rule_action(rule, None) == rule.on_unmatch,
{
}

/// Evaluation is a function of the rules and the attribute values alone:
/// two passes against an unchanged rule set and an unchanged focused
/// window dispatch identical actions.
pub proof fn lemma_evaluation_idempotent(
    first: Seq<Seq<char>>,
    second: Seq<Seq<char>>,
    rules: Seq<RuleView>,
    name_value: Option<Seq<char>>,
    class_value: Option<Seq<char>>,
)
    requires
        first == spec_actions(rules, name_value, class_value),
        second == spec_actions(rules, name_value, class_value),
    ensures
        first == second,
{
}

/// Whether a rule dispatches a match action in a pass: it matches and its
/// match slot holds a command.
pub open spec fn spec_match_dispatches(
    rule: RuleView,
    name_value: Option<Seq<char>>,
    class_value: Option<Seq<char>>,
) -> bool {
    spec_matched(rule, name_value, class_value) && rule.on_match is Some
}

/// Whether a rule dispatches an unmatch action in a pass: it does not match
/// and its unmatch slot holds a command.
pub open spec fn spec_unmatch_dispatches(
    rule: RuleView,
    name_value: Option<Seq<char>>,
    class_value: Option<Seq<char>>,
) -> bool {
    !spec_matched(rule, name_value, class_value) && rule.on_unmatch is Some
}

/// Rule independence: with the rules of one pass split into those that
/// match and those that do not, the pass dispatches exactly one match
/// action per matching rule whose match slot holds a command, and one
/// unmatch action per non-matching rule whose unmatch slot holds a
/// command.
pub proof fn lemma_rule_independence(
    rules: Seq<RuleView>,
    name_value: Option<Seq<char>>,
    class_value: Option<Seq<char>>,
)
    ensures
        spec_actions(rules, name_value, class_value).len() == rules.filter(
            |r: RuleView| spec_match_dispatches(r, name_value, class_value),
        ).len() + rules.filter(
            |r: RuleView| spec_unmatch_dispatches(r, name_value, class_value),
        ).len(),
    decreases rules.len(),
{
    reveal(Seq::filter);
    if rules.len() == 0 {
    } else {
        lemma_rule_independence(rules.drop_last(), name_value, class_value);
    }
}

/// Removing one rule removes exactly its own contribution to a filter
/// count.
proof fn lemma_filter_len_remove(s: Seq<RuleView>, p: spec_fn(RuleView) -> bool, j: int)
    requires
        0 <= j < s.len(),
    ensures
        s.filter(p).len() == s.remove(j).filter(p).len() + if p(s[j]) {
            1int
        } else {
            0int
        },
    decreases s.len(),
{
    reveal(Seq::filter);
    if j == s.len() - 1 {
        assert(s.remove(j) =~= s.drop_last());
    } else {
        lemma_filter_len_remove(s.drop_last(), p, j);
        assert(s.remove(j).drop_last() =~= s.drop_last().remove(j));
        assert(s.remove(j).last() == s.last());
    }
}

/// A filter count depends only on which rules a sequence holds, not on
/// their order.
proof fn lemma_filter_len_permutation(
    s1: Seq<RuleView>,
    s2: Seq<RuleView>,
    p: spec_fn(RuleView) -> bool,
)
    requires
        s1.to_multiset() == s2.to_multiset(),
    ensures
        s1.filter(p).len() == s2.filter(p).len(),
    decreases s1.len(),
{
    broadcast use vstd::seq_lib::group_to_multiset_ensures;

    reveal(Seq::filter);
    if s1.len() == 0 {
        assert(s1.to_multiset().len() == s1.len());
        assert(s2.to_multiset().len() == s2.len());
        assert(s2.len() == 0);
    } else {
        let last = s1.len() - 1;
        let x = s1[last];
        assert(s1.contains(x));
        assert(s2.to_multiset().count(x) > 0);
        assert(s2.contains(x));
        let j = choose|j: int| 0 <= j < s2.len() && s2[j] == x;
        assert(s1.remove(last).to_multiset() =~= s2.remove(j).to_multiset());
        lemma_filter_len_remove(s1, p, last);
        lemma_filter_len_remove(s2, p, j);
        lemma_filter_len_permutation(s1.remove(last), s2.remove(j), p);
    }
}

/// Rule order affects only the order in which actions are dispatched, not
/// how many: two rule sets holding the same rules in any order dispatch
/// the same number of match actions, of unmatch actions, and of actions in
/// all, for the same attribute values.
pub proof fn lemma_counts_order_independent(
    rules1: Seq<RuleView>,
    rules2: Seq<RuleView>,
    name_value: Option<Seq<char>>,
    class_value: Option<Seq<char>>,
)
    requires
        rules1.to_multiset() == rules2.to_multiset(),
    ensures
        rules1.filter(|r: RuleView| spec_match_dispatches(r, name_value, class_value)).len()
            == rules2.filter(
            |r: RuleView| spec_match_dispatches(r, name_value, class_value),
        ).len(),
        rules1.filter(|r: RuleView| spec_unmatch_dispatches(r, name_value, class_value)).len()
            == rules2.filter(
            |r: RuleView| spec_unmatch_dispatches(r, name_value, class_value),
        ).len(),
        spec_actions(rules1, name_value, class_value).len() == spec_actions(
            rules2,
            name_value,
            class_value,
        ).len(),
{
    lemma_rule_independence(rules1, name_value, class_value);
    lemma_rule_independence(rules2, name_value, class_value);
    lemma_filter_len_permutation(
        rules1,
        rules2,
        |r: RuleView| spec_match_dispatches(r, name_value, class_value),
    );
    lemma_filter_len_permutation(
        rules1,
        rules2,
        |r: RuleView| spec_unmatch_dispatches(r, name_value, class_value),
    );
}

} // verus!
