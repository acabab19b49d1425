//! The policy engine: which action a command path gets under a configuration.
//!
//! A rule matches when its pattern is a prefix of the command path. Among the
//! matching rules the longest patterns win; among those the safest action
//! wins (deny over gate over allow). With no matching rule the default action
//! applies.
use vstd::prelude::*;

use crate::config::{
    default_allowed_words, default_config_view, strings_view, Config, ConfigView, RuleView,
};
use crate::text::{debug_list, debug_list_text, str_eq};

verus! {

/// What happens to a command.
#[derive(Debug, Clone, Copy, PartialEq, Eq, Structural)]
pub enum Action {
    /// Run the real GitHub CLI at once.
    Allow,
    /// Run it only after a fresh sudo authorization.
    Gate,
    /// Refuse to run it.
    Deny,
}

/// The action an action word names; unknown words are gated.
pub open spec fn spec_parse_action(s: Seq<char>) -> Action {
    if s == "allow"@ {
        Action::Allow
    } else if s == "deny"@ {
        Action::Deny
    } else {
        Action::Gate
    }
}

/// How restrictive an action is: allow < gate < deny.
pub open spec fn severity(a: Action) -> int {
    match a {
        Action::Allow => 1,
        Action::Gate => 2,
        Action::Deny => 3,
    }
}

/// The more restrictive of two actions.
pub open spec fn spec_safer(a: Action, b: Action) -> Action {
    if severity(a) >= severity(b) {
        a
    } else {
        b
    }
}

/// `pattern` is a prefix of `path`.
pub open spec fn is_prefix(pattern: Seq<Seq<char>>, path: Seq<Seq<char>>) -> bool {
    pattern.len() <= path.len() && forall|k: int| 0 <= k < pattern.len() ==> pattern[k] == path[k]
}

/// Rule `i` matches `path`.
pub open spec fn rule_matches(rules: Seq<RuleView>, path: Seq<Seq<char>>, i: int) -> bool {
    is_prefix(rules[i].pattern, path)
}

/// The length of the longest matching pattern among the first `n` rules,
/// or -1 when none of them matches.
pub open spec fn longest_match(rules: Seq<RuleView>, path: Seq<Seq<char>>, n: int) -> int
    decreases n,
{
    if n <= 0 {
        -1
    } else {
        let l = longest_match(rules, path, n - 1);
        if rule_matches(rules, path, n - 1) && rules[n - 1].pattern.len() > l {
            rules[n - 1].pattern.len() as int
        } else {
            l
        }
    }
}

/// Rule `i` matches `path` with a pattern of length `len`.
pub open spec fn matches_with_len(rules: Seq<RuleView>, path: Seq<Seq<char>>, len: int, i: int) -> bool {
    rule_matches(rules, path, i) && rules[i].pattern.len() == len
}

/// The index of the first of the first `n` rules that matches with a pattern
/// of length `len`, or -1.
pub open spec fn first_match_of_len(
    rules: Seq<RuleView>,
    path: Seq<Seq<char>>,
    len: int,
    n: int,
) -> int
    decreases n,
{
    if n <= 0 {
        -1
    } else {
        let f = first_match_of_len(rules, path, len, n - 1);
        if f >= 0 {
            f
        } else if matches_with_len(rules, path, len, n - 1) {
            n - 1
        } else {
            -1
        }
    }
}

/// The safest action among the first `n` rules that match with a pattern of
/// length `len`.
pub open spec fn safest_of_len(rules: Seq<RuleView>, path: Seq<Seq<char>>, len: int, n: int) -> Option<Action>
    decreases n,
{
    if n <= 0 {
        None
    } else {
        let s = safest_of_len(rules, path, len, n - 1);
        if matches_with_len(rules, path, len, n - 1) {
            let a = spec_parse_action(rules[n - 1].action);
            match s {
                None => Some(a),
                Some(b) => Some(spec_safer(a, b)),
            }
        } else {
            s
        }
    }
}

/// The decision for `path`: the action, and the pattern of the rule that is
/// reported as matched (the first of the longest matching rules), if any.
pub open spec fn decision(c: ConfigView, path: Seq<Seq<char>>) -> (Action, Option<Seq<Seq<char>>>) {
    let n = c.rules.len() as int;
    let l = longest_match(c.rules, path, n);
    if l < 0 {
        (spec_parse_action(c.default_action), None)
    } else {
        (
            safest_of_len(c.rules, path, l, n).unwrap(),
            Some(c.rules[first_match_of_len(c.rules, path, l, n)].pattern),
        )
    }
}

/// The action an action word names; unknown words are gated.
pub fn parse_action(s: &str) -> (a: Action)
    ensures
        a == spec_parse_action(s@),
{
    if str_eq(s, "allow") {
        Action::Allow
    } else if str_eq(s, "deny") {
        Action::Deny
    } else {
        Action::Gate
    }
}

/// The more restrictive of two actions.
fn safer(a: Action, b: Action) -> (r: Action)
    ensures
        r == spec_safer(a, b),
{
    let sa: u8 = match a {
        Action::Allow => 1,
        Action::Gate => 2,
        Action::Deny => 3,
    };
    let sb: u8 = match b {
        Action::Allow => 1,
        Action::Gate => 2,
        Action::Deny => 3,
    };
    if sa >= sb {
        a
    } else {
        b
    }
}

/// Whether the words of `rule` are a prefix of `path`.
pub fn rule_is_prefix(rule: &Vec<String>, path: &[String]) -> (r: bool)
    ensures
        r == is_prefix(strings_view(rule@), strings_view(path@)),
{
    let n = rule.len();
    if n > path.len() {
        return false;
    }
    let mut k: usize = 0;
    while k < n
        invariant
            n == rule@.len(),
            n <= path@.len(),
            k <= n,
            forall|j: int| 0 <= j < k ==> rule@[j]@ == path@[j]@,
        decreases n - k,
    {
        if !str_eq(rule[k].as_str(), path[k].as_str()) {
            assert(strings_view(rule@)[k as int] != strings_view(path@)[k as int]);
            return false;
        }
        k = k + 1;
    }
    true
}

proof fn lemma_longest_match(rules: Seq<RuleView>, path: Seq<Seq<char>>, n: int)
    requires
        0 <= n <= rules.len(),
    ensures
        longest_match(rules, path, n) >= -1,
        forall|i: int|
            0 <= i < n && rule_matches(rules, path, i) ==> rules[i].pattern.len() <= longest_match(
                rules,
                path,
                n,
            ),
        longest_match(rules, path, n) >= 0 ==> exists|i: int|
            0 <= i < n && matches_with_len(rules, path, longest_match(rules, path, n), i),
        longest_match(rules, path, n) < 0 ==> forall|i: int|
            0 <= i < n ==> !rule_matches(rules, path, i),
    decreases n,
{
    if n > 0 {
        lemma_longest_match(rules, path, n - 1);
        let l = longest_match(rules, path, n - 1);
        if rule_matches(rules, path, n - 1) && rules[n - 1].pattern.len() > l {
            assert(matches_with_len(rules, path, longest_match(rules, path, n), n - 1));
        } else if l >= 0 {
            let i = choose|i: int| 0 <= i < n - 1 && matches_with_len(rules, path, l, i);
            assert(matches_with_len(rules, path, longest_match(rules, path, n), i));
        }
    }
}

proof fn lemma_first_match_of_len(rules: Seq<RuleView>, path: Seq<Seq<char>>, len: int, n: int)
    requires
        0 <= n <= rules.len(),
    ensures
        ({
            let f = first_match_of_len(rules, path, len, n);
            &&& f >= 0 ==> (f < n && matches_with_len(rules, path, len, f) && forall|j: int|
                0 <= j < f ==> !matches_with_len(rules, path, len, j))
            &&& f < 0 ==> forall|j: int| 0 <= j < n ==> !matches_with_len(rules, path, len, j)
        }),
    decreases n,
{
    if n > 0 {
        lemma_first_match_of_len(rules, path, len, n - 1);
    }
}

proof fn lemma_safest_of_len(rules: Seq<RuleView>, path: Seq<Seq<char>>, len: int, n: int)
    requires
        0 <= n <= rules.len(),
    ensures
        safest_of_len(rules, path, len, n) is Some <==> exists|i: int|
            0 <= i < n && matches_with_len(rules, path, len, i),
        safest_of_len(rules, path, len, n) is Some ==> {
            let a = safest_of_len(rules, path, len, n).unwrap();
            &&& exists|i: int|
                0 <= i < n && matches_with_len(rules, path, len, i) && a == spec_parse_action(
                    rules[i].action,
                )
            &&& forall|j: int|
                0 <= j < n && matches_with_len(rules, path, len, j) ==> severity(
                    spec_parse_action(rules[j].action),
                ) <= severity(a)
        },
    decreases n,
{
    if n > 0 {
        lemma_safest_of_len(rules, path, len, n - 1);
        let s = safest_of_len(rules, path, len, n - 1);
        if matches_with_len(rules, path, len, n - 1) {
            let a = spec_parse_action(rules[n - 1].action);
            match s {
                None => {
                    assert(matches_with_len(rules, path, len, n - 1));
                },
                Some(b) => {
                    let i = choose|i: int|
                        0 <= i < n - 1 && matches_with_len(rules, path, len, i) && b
                            == spec_parse_action(rules[i].action);
                    if severity(a) >= severity(b) {
                        assert(matches_with_len(rules, path, len, n - 1));
                    } else {
                        assert(matches_with_len(rules, path, len, i));
                    }
                },
            }
        } else if s is Some {
            let a = s.unwrap();
            let i = choose|i: int|
                0 <= i < n - 1 && matches_with_len(rules, path, len, i) && a == spec_parse_action(
                    rules[i].action,
                );
            assert(matches_with_len(rules, path, len, i));
        }
    }
}

/// Decides what happens to `command_path`: the action, and the matched rule
/// rendered as text when a rule matched.
pub fn decide(config: &Config, command_path: &[String]) -> (r: (Action, Option<String>))
    ensures
        r.0 == decision(config@, strings_view(command_path@)).0,
        match decision(config@, strings_view(command_path@)).1 {
            None => r.1 is None,
            Some(p) => r.1 is Some && r.1->0@ == debug_list_text(p),
        },
{
    let n = config.rules.len();
    let ghost rules = config@.rules;
    let ghost path = strings_view(command_path@);
    assert(rules.len() == n);
    let mut longest: Option<usize> = None;
    let mut i: usize = 0;
    while i < n
        invariant
            n == config.rules@.len(),
            rules == config@.rules,
            path == strings_view(command_path@),
            rules.len() == n,
            i <= n,
            match longest {
                None => longest_match(rules, path, i as int) == -1,
                Some(l) => longest_match(rules, path, i as int) == l as int,
            },
        decreases n - i,
    {
        let rule = &config.rules[i];
        assert(rules[i as int] == rule@);
        if rule_is_prefix(&rule.match_vec, command_path) {
            let len = rule.match_vec.len();
            match longest {
                None => {
                    longest = Some(len);
                },
                Some(l) => {
                    if len > l {
                        longest = Some(len);
                    }
                },
            }
        }
        i = i + 1;
    }
    let l = match longest {
        None => {
            return (parse_action(config.default.action.as_str()), None);
        },
        Some(l) => l,
    };
    let mut first: Option<usize> = None;
    let mut safest: Option<Action> = None;
    let mut i: usize = 0;
    while i < n
        invariant
            n == config.rules@.len(),
            rules == config@.rules,
            path == strings_view(command_path@),
            rules.len() == n,
            i <= n,
            longest_match(rules, path, n as int) == l as int,
            match first {
                None => first_match_of_len(rules, path, l as int, i as int) == -1,
                Some(f) => first_match_of_len(rules, path, l as int, i as int) == f as int,
            },
            safest == safest_of_len(rules, path, l as int, i as int),
        decreases n - i,
    {
        let rule = &config.rules[i];
        assert(rules[i as int] == rule@);
        if rule_is_prefix(&rule.match_vec, command_path) && rule.match_vec.len() == l {
            let a = parse_action(rule.action.as_str());
            if first.is_none() {
                first = Some(i);
            }
            safest = match safest {
                None => Some(a),
                Some(b) => Some(safer(a, b)),
            };
        }
        i = i + 1;
    }
    proof {
        lemma_longest_match(rules, path, n as int);
        lemma_safest_of_len(rules, path, l as int, n as int);
        lemma_first_match_of_len(rules, path, l as int, n as int);
    }
    let f = first.unwrap();
    let action = safest.unwrap();
    let desc = debug_list(&config.rules[f].match_vec);
    assert(rules[f as int] == config.rules@[f as int]@);
    (action, Some(desc))
}

/// A rule that matches `path` and whose pattern is at least as long as that
/// of every matching rule.
pub open spec fn is_most_specific(rules: Seq<RuleView>, path: Seq<Seq<char>>, i: int) -> bool {
    &&& 0 <= i < rules.len()
    &&& rule_matches(rules, path, i)
    &&& forall|k: int|
        0 <= k < rules.len() && rule_matches(rules, path, k) ==> rules[k].pattern.len()
            <= rules[i].pattern.len()
}

/// When no rule matches a command path, the default action decides and no
/// rule is reported.
pub proof fn law_no_match_uses_default(c: ConfigView, path: Seq<Seq<char>>)
    requires
        forall|i: int| 0 <= i < c.rules.len() ==> !rule_matches(c.rules, path, i),
    ensures
        decision(c, path) == (spec_parse_action(c.default_action), None::<Seq<Seq<char>>>),
{
    lemma_longest_match(c.rules, path, c.rules.len() as int);
}

/// When some rule matches, the decision is the action of one of the most
/// specific matching rules (those with the longest pattern), no action of a
/// most specific matching rule is more restrictive than it (deny > gate >
/// allow), and the reported rule is the first most specific matching rule.
pub proof fn law_most_specific_rule_decides(c: ConfigView, path: Seq<Seq<char>>, m: int)
    requires
        0 <= m < c.rules.len(),
        rule_matches(c.rules, path, m),
    ensures
        exists|i: int|
            is_most_specific(c.rules, path, i) && decision(c, path).0 == spec_parse_action(
                c.rules[i].action,
            ),
        forall|j: int|
            is_most_specific(c.rules, path, j) ==> severity(spec_parse_action(c.rules[j].action))
                <= severity(decision(c, path).0),
        exists|f: int|
            is_most_specific(c.rules, path, f) && (forall|j: int|
                0 <= j < f ==> !is_most_specific(c.rules, path, j)) && decision(c, path).1 == Some(
                c.rules[f].pattern,
            ),
{
    let rules = c.rules;
    let n = rules.len() as int;
    lemma_longest_match(rules, path, n);
    let l = longest_match(rules, path, n);
    assert(l >= 0);
    lemma_safest_of_len(rules, path, l, n);
    lemma_first_match_of_len(rules, path, l, n);
    assert forall|j: int| is_most_specific(rules, path, j) <==> matches_with_len(rules, path, l, j)
        && 0 <= j < n by {
        if 0 <= j < n && matches_with_len(rules, path, l, j) {
            let w = choose|i: int| 0 <= i < n && matches_with_len(rules, path, l, i);
            assert(is_most_specific(rules, path, j));
        }
        if is_most_specific(rules, path, j) {
            let w = choose|i: int| 0 <= i < n && matches_with_len(rules, path, l, i);
            assert(rules[w].pattern.len() <= rules[j].pattern.len());
        }
    }
    let a = decision(c, path).0;
    let i = choose|i: int|
        0 <= i < n && matches_with_len(rules, path, l, i) && a == spec_parse_action(rules[i].action);
    assert(is_most_specific(rules, path, i));
    let f = first_match_of_len(rules, path, l, n);
    assert(is_most_specific(rules, path, f));
}

/// Under the built-in configuration a command is allowed exactly when its
/// first word is `--version`, `--help`, `help` or `completion`; every other
/// command, including an empty one, is gated.
pub proof fn law_default_policy(path: Seq<Seq<char>>)
    ensures
        decision(default_config_view(), path).0 == (if path.len() >= 1
            && default_allowed_words().contains(path[0]) {
            Action::Allow
        } else {
            Action::Gate
        }),
{
    let c = default_config_view();
    let rules = c.rules;
    let words = default_allowed_words();
    reveal_strlit("--version");
    reveal_strlit("--help");
    reveal_strlit("help");
    reveal_strlit("completion");
    reveal_strlit("allow");
    reveal_strlit("gate");
    reveal_strlit("deny");
    assert forall|i: int| 0 <= i < 4 implies rule_matches(rules, path, i) == (path.len() >= 1
        && path[0] == words[i]) by {
        assert(rules[i].pattern == seq![words[i]]);
    }
    assert forall|i: int| 0 <= i < 4 implies spec_parse_action(rules[i].action) == Action::Allow by {}
    if path.len() >= 1 && words.contains(path[0]) {
        let w = choose|i: int| 0 <= i < words.len() && words[i] == path[0];
        assert(rule_matches(rules, path, w));
        law_most_specific_rule_decides(c, path, w);
        let i = choose|i: int|
            is_most_specific(rules, path, i) && decision(c, path).0 == spec_parse_action(
                rules[i].action,
            );
        assert(0 <= i < 4);
        assert(rules[i].action == "allow"@);
        assert(decision(c, path).0 == Action::Allow);
    } else {
        assert forall|i: int| 0 <= i < rules.len() implies !rule_matches(rules, path, i) by {
            if rule_matches(rules, path, i) {
                assert(words[i] == path[0]);
            }
        }
        law_no_match_uses_default(c, path);
        assert(c.default_action == "gate"@);
        assert("gate"@.len() != "allow"@.len());
        assert("gate"@[0] != "deny"@[0]);
        assert(decision(c, path).0 == Action::Gate);
    }
}

proof fn lemma_same_rules_longest(r1: Seq<RuleView>, r2: Seq<RuleView>, path: Seq<Seq<char>>)
    requires
        forall|i: int| 0 <= i < r1.len() ==> #[trigger] r2.contains(r1[i]),
    ensures
        longest_match(r1, path, r1.len() as int) <= longest_match(r2, path, r2.len() as int),
{
    lemma_longest_match(r1, path, r1.len() as int);
    lemma_longest_match(r2, path, r2.len() as int);
    let l1 = longest_match(r1, path, r1.len() as int);
    if l1 >= 0 {
        let i = choose|i: int| 0 <= i < r1.len() && matches_with_len(r1, path, l1, i);
        assert(r2.contains(r1[i]));
        let j = choose|j: int| 0 <= j < r2.len() && r2[j] == r1[i];
        assert(rule_matches(r2, path, j));
    }
}

proof fn lemma_same_rules_safest(r1: Seq<RuleView>, r2: Seq<RuleView>, path: Seq<Seq<char>>, l: int)
    requires
        forall|i: int| 0 <= i < r1.len() ==> #[trigger] r2.contains(r1[i]),
        safest_of_len(r1, path, l, r1.len() as int) is Some,
        safest_of_len(r2, path, l, r2.len() as int) is Some,
    ensures
        severity(safest_of_len(r1, path, l, r1.len() as int).unwrap()) <= severity(
            safest_of_len(r2, path, l, r2.len() as int).unwrap(),
        ),
{
    lemma_safest_of_len(r1, path, l, r1.len() as int);
    lemma_safest_of_len(r2, path, l, r2.len() as int);
    let a1 = safest_of_len(r1, path, l, r1.len() as int).unwrap();
    let i = choose|i: int|
        0 <= i < r1.len() && matches_with_len(r1, path, l, i) && a1 == spec_parse_action(r1[i].action);
    assert(r2.contains(r1[i]));
    let j = choose|j: int| 0 <= j < r2.len() && r2[j] == r1[i];
    assert(matches_with_len(r2, path, l, j));
}

proof fn lemma_reported_pattern(rules: Seq<RuleView>, path: Seq<Seq<char>>, l: int)
    requires
        first_match_of_len(rules, path, l, rules.len() as int) >= 0,
    ensures
        rules[first_match_of_len(rules, path, l, rules.len() as int)].pattern == path.take(l),
{
    lemma_first_match_of_len(rules, path, l, rules.len() as int);
    let f = first_match_of_len(rules, path, l, rules.len() as int);
    assert(rules[f].pattern =~= path.take(l));
}

/// The order of the rules never changes a decision: a configuration whose
/// rules are a permutation of another's, with the same default action,
/// decides every command path alike, action and reported rule.
pub proof fn law_rule_order_does_not_matter(c: ConfigView, rules: Seq<RuleView>, path: Seq<Seq<char>>)
    requires
        rules.to_multiset() == c.rules.to_multiset(),
    ensures
        decision(ConfigView { rules, ..c }, path) == decision(c, path),
{
    broadcast use vstd::seq_lib::to_multiset_contains;

    let r1 = c.rules;
    let r2 = rules;
    assert forall|i: int| 0 <= i < r1.len() implies #[trigger] r2.contains(r1[i]) by {
        assert(r1.contains(r1[i]));
        assert(r1.to_multiset().count(r1[i]) > 0);
        assert(r2.to_multiset().count(r1[i]) > 0);
    }
    assert forall|i: int| 0 <= i < r2.len() implies #[trigger] r1.contains(r2[i]) by {
        assert(r2.contains(r2[i]));
        assert(r2.to_multiset().count(r2[i]) > 0);
        assert(r1.to_multiset().count(r2[i]) > 0);
    }
    lemma_same_rules_longest(r1, r2, path);
    lemma_same_rules_longest(r2, r1, path);
    lemma_longest_match(r1, path, r1.len() as int);
    lemma_longest_match(r2, path, r2.len() as int);
    let l = longest_match(r1, path, r1.len() as int);
    assert(l == longest_match(r2, path, r2.len() as int));
    if l >= 0 {
        lemma_safest_of_len(r1, path, l, r1.len() as int);
        lemma_safest_of_len(r2, path, l, r2.len() as int);
        lemma_same_rules_safest(r1, r2, path, l);
        lemma_same_rules_safest(r2, r1, path, l);
        lemma_first_match_of_len(r1, path, l, r1.len() as int);
        lemma_first_match_of_len(r2, path, l, r2.len() as int);
        let w1 = choose|i: int| 0 <= i < r1.len() && matches_with_len(r1, path, l, i);
        let w2 = choose|i: int| 0 <= i < r2.len() && matches_with_len(r2, path, l, i);
        assert(first_match_of_len(r1, path, l, r1.len() as int) >= 0);
        assert(first_match_of_len(r2, path, l, r2.len() as int) >= 0);
        lemma_reported_pattern(r1, path, l);
        lemma_reported_pattern(r2, path, l);
    }
}

} // verus!
