//! The wrapper's configuration: its sections, the built-in defaults and the
//! checks that a loaded configuration must pass.
use vstd::prelude::*;
use vstd::string::*;

use crate::text::{contains, decimal, decimal_string, seq_contains, seq_occurs_at, str_eq};

verus! {

/// The characters of each string of a sequence.
pub open spec fn strings_view(v: Seq<String>) -> Seq<Seq<char>> {
    v.map_values(|s: String| s@)
}

/// The `[default]` section: what happens to a command that no rule matches.
#[derive(Debug, Clone)]
pub struct DefaultSection {
    pub action: String,
}

/// The `[updates]` section: how the managed GitHub CLI is kept current.
#[derive(Debug, Clone)]
pub struct UpdatesSection {
    pub auto_update: bool,
    pub check_interval: String,
    pub pinned_version: String,
}

/// The `[logging]` section.
#[derive(Debug, Clone)]
pub struct LoggingSection {
    pub level: String,
    pub redact: bool,
    pub otel_endpoint: String,
}

/// The `[real_gh]` section: where releases of the real GitHub CLI come from.
#[derive(Debug, Clone)]
pub struct RealGhSection {
    pub download_source: String,
    pub release_repo: String,
}

/// The `[gate]` section: how gated commands are authorized.
#[derive(Debug, Clone)]
pub struct GateSection {
    pub method: String,
    pub fresh: bool,
}

/// One policy rule: a command-path prefix and the action it selects.
#[derive(Debug, Clone)]
pub struct Rule {
    pub match_vec: Vec<String>,
    pub action: String,
}

/// The whole configuration file.
#[derive(Debug, Clone)]
pub struct Config {
    pub default: DefaultSection,
    pub updates: UpdatesSection,
    pub logging: LoggingSection,
    pub real_gh: RealGhSection,
    pub gate: GateSection,
    pub rules: Vec<Rule>,
}

/// A rule as text: its pattern (a sequence of words) and its action word.
pub struct RuleView {
    pub pattern: Seq<Seq<char>>,
    pub action: Seq<char>,
}

/// A configuration as text.
pub struct ConfigView {
    pub default_action: Seq<char>,
    pub auto_update: bool,
    pub check_interval: Seq<char>,
    pub pinned_version: Seq<char>,
    pub log_level: Seq<char>,
    pub redact: bool,
    pub otel_endpoint: Seq<char>,
    pub download_source: Seq<char>,
    pub release_repo: Seq<char>,
    pub gate_method: Seq<char>,
    pub gate_fresh: bool,
    pub rules: Seq<RuleView>,
}

impl View for Rule {
    type V = RuleView;

    open spec fn view(&self) -> RuleView {
        RuleView { pattern: strings_view(self.match_vec@), action: self.action@ }
    }
}

impl View for Config {
    type V = ConfigView;

    open spec fn view(&self) -> ConfigView {
        ConfigView {
            default_action: self.default.action@,
            auto_update: self.updates.auto_update,
            check_interval: self.updates.check_interval@,
            pinned_version: self.updates.pinned_version@,
            log_level: self.logging.level@,
            redact: self.logging.redact,
            otel_endpoint: self.logging.otel_endpoint@,
            download_source: self.real_gh.download_source@,
            release_repo: self.real_gh.release_repo@,
            gate_method: self.gate.method@,
            gate_fresh: self.gate.fresh,
            rules: self.rules@.map_values(|r: Rule| r@),
        }
    }
}

/// The three action words a configuration may use.
pub open spec fn is_valid_action(s: Seq<char>) -> bool {
    s == "allow"@ || s == "gate"@ || s == "deny"@
}

/// Why a configuration is rejected.
#[derive(Debug, Clone)]
pub enum ConfigError {
    /// `[default].action` is not one of `allow`, `gate`, `deny`.
    InvalidDefaultAction(String),
    /// `[gate].method` is not `sudo`.
    UnsupportedGateMethod(String),
    /// `[real_gh].download_source` is not `github`.
    UnsupportedDownloadSource(String),
    /// `[real_gh].release_repo` has no `/`.
    InvalidReleaseRepo(String),
    /// The rule at this index has an action other than `allow`, `gate`, `deny`.
    InvalidRuleAction(usize, String),
    /// The rule at this index has an empty `match` array.
    EmptyRuleMatch(usize),
}

/// A configuration problem, as text.
pub enum ConfigProblem {
    InvalidDefaultAction(Seq<char>),
    UnsupportedGateMethod(Seq<char>),
    UnsupportedDownloadSource(Seq<char>),
    InvalidReleaseRepo(Seq<char>),
    InvalidRuleAction(int, Seq<char>),
    EmptyRuleMatch(int),
}

impl View for ConfigError {
    type V = ConfigProblem;

    open spec fn view(&self) -> ConfigProblem {
        match self {
            ConfigError::InvalidDefaultAction(s) => ConfigProblem::InvalidDefaultAction(s@),
            ConfigError::UnsupportedGateMethod(s) => ConfigProblem::UnsupportedGateMethod(s@),
            ConfigError::UnsupportedDownloadSource(s) => ConfigProblem::UnsupportedDownloadSource(
                s@,
            ),
            ConfigError::InvalidReleaseRepo(s) => ConfigProblem::InvalidReleaseRepo(s@),
            ConfigError::InvalidRuleAction(i, s) => ConfigProblem::InvalidRuleAction(
                *i as int,
                s@,
            ),
            ConfigError::EmptyRuleMatch(i) => ConfigProblem::EmptyRuleMatch(*i as int),
        }
    }
}

/// The message reported for a configuration problem.
pub open spec fn config_error_message(p: ConfigProblem) -> Seq<char> {
    match p {
        ConfigProblem::InvalidDefaultAction(s) => "invalid default action: "@ + s,
        ConfigProblem::UnsupportedGateMethod(s) => "unsupported gate method: "@ + s,
        ConfigProblem::UnsupportedDownloadSource(s) => "unsupported download source: "@ + s,
        ConfigProblem::InvalidReleaseRepo(s) => "invalid release repo format: "@ + s,
        ConfigProblem::InvalidRuleAction(i, s) => "invalid action for rule "@ + decimal(i as nat)
            + ": "@ + s,
        ConfigProblem::EmptyRuleMatch(i) => "rule "@ + decimal(i as nat)
            + " has empty match array (would match everything)"@,
    }
}

impl ConfigError {
    /// The message reported for this error.
    pub fn message(&self) -> (r: String)
        ensures
            r@ == config_error_message(self@),
    {
        match self {
            ConfigError::InvalidDefaultAction(s) => String::from_str("invalid default action: ").concat(
                s.as_str(),
            ),
            ConfigError::UnsupportedGateMethod(s) => String::from_str("unsupported gate method: ").concat(
                s.as_str(),
            ),
            ConfigError::UnsupportedDownloadSource(s) => String::from_str(
                "unsupported download source: ",
            ).concat(s.as_str()),
            ConfigError::InvalidReleaseRepo(s) => String::from_str("invalid release repo format: ").concat(
                s.as_str(),
            ),
            ConfigError::InvalidRuleAction(i, s) => {
                let n = decimal_string(*i);
                String::from_str("invalid action for rule ").concat(n.as_str()).concat(": ").concat(
                    s.as_str(),
                )
            },
            ConfigError::EmptyRuleMatch(i) => {
                let n = decimal_string(*i);
                String::from_str("rule ").concat(n.as_str()).concat(
                    " has empty match array (would match everything)",
                )
            },
        }
    }
}

/// The problem of the rule at index `i`, if it has one: a bad action is
/// reported before an empty pattern.
pub open spec fn rule_problem(r: RuleView, i: int) -> Option<ConfigProblem> {
    if !is_valid_action(r.action) {
        Some(ConfigProblem::InvalidRuleAction(i, r.action))
    } else if r.pattern.len() == 0 {
        Some(ConfigProblem::EmptyRuleMatch(i))
    } else {
        None
    }
}

/// The problem of the first rule at or after index `i` that has one.
pub open spec fn first_rule_problem(rules: Seq<RuleView>, i: int) -> Option<ConfigProblem>
    decreases rules.len() - i,
{
    if i < 0 || i >= rules.len() {
        None
    } else {
        match rule_problem(rules[i], i) {
            Some(p) => Some(p),
            None => first_rule_problem(rules, i + 1),
        }
    }
}

/// The problem that validation reports for a configuration, checked in this
/// order: default action, gate method, download source, release repository,
/// then the rules in order; `None` when the configuration is valid.
pub open spec fn config_problem(c: ConfigView) -> Option<ConfigProblem> {
    if !is_valid_action(c.default_action) {
        Some(ConfigProblem::InvalidDefaultAction(c.default_action))
    } else if c.gate_method != "sudo"@ {
        Some(ConfigProblem::UnsupportedGateMethod(c.gate_method))
    } else if c.download_source != "github"@ {
        Some(ConfigProblem::UnsupportedDownloadSource(c.download_source))
    } else if !seq_contains(c.release_repo, "/"@) {
        Some(ConfigProblem::InvalidReleaseRepo(c.release_repo))
    } else {
        first_rule_problem(c.rules, 0)
    }
}

/// Whether `s` is one of the action words.
pub fn valid_action(s: &str) -> (r: bool)
    ensures
        r == is_valid_action(s@),
{
    str_eq(s, "allow") || str_eq(s, "gate") || str_eq(s, "deny")
}

impl Config {
    /// Checks the configuration, reporting the first problem found.
    pub fn validate(&self) -> (r: Result<(), ConfigError>)
        ensures
            match r {
                Ok(()) => config_problem(self@) is None,
                Err(e) => config_problem(self@) == Some(e@),
            },
    {
        if !valid_action(self.default.action.as_str()) {
            return Err(ConfigError::InvalidDefaultAction(self.default.action.clone()));
        }
        if !str_eq(self.gate.method.as_str(), "sudo") {
            return Err(ConfigError::UnsupportedGateMethod(self.gate.method.clone()));
        }
        if !str_eq(self.real_gh.download_source.as_str(), "github") {
            return Err(ConfigError::UnsupportedDownloadSource(self.real_gh.download_source.clone()));
        }
        if !contains(self.real_gh.release_repo.as_str(), "/") {
            return Err(ConfigError::InvalidReleaseRepo(self.real_gh.release_repo.clone()));
        }
        let n = self.rules.len();
        let ghost rules = self@.rules;
        assert(config_problem(self@) == first_rule_problem(rules, 0));
        let mut i: usize = 0;
        while i < n
            invariant
                n == self.rules@.len(),
                rules == self@.rules,
                rules.len() == n,
                i <= n,
                config_problem(self@) == first_rule_problem(rules, i as int),
            decreases n - i,
        {
            let rule = &self.rules[i];
            assert(rules[i as int] == rule@);
            if !valid_action(rule.action.as_str()) {
                return Err(ConfigError::InvalidRuleAction(i, rule.action.clone()));
            }
            if rule.match_vec.len() == 0 {
                return Err(ConfigError::EmptyRuleMatch(i));
            }
            i = i + 1;
        }
        Ok(())
    }
}

/// The check interval used when the configuration names none.
pub fn default_check_interval() -> (r: String)
    ensures
        r@ == "24h"@,
{
    String::from_str("24h")
}

/// A rule with a one-word pattern.
fn single_word_rule(word: &str, action: &str) -> (r: Rule)
    ensures
        r@.pattern == seq![word@],
        r@.action == action@,
{
    let mut match_vec: Vec<String> = Vec::new();
    match_vec.push(String::from_str(word));
    let r = Rule { match_vec, action: String::from_str(action) };
    assert(r@.pattern =~= seq![word@]);
    r
}

/// The words that the built-in rules allow without a gate.
pub open spec fn default_allowed_words() -> Seq<Seq<char>> {
    seq!["--version"@, "--help"@, "help"@, "completion"@]
}

/// The built-in configuration, as text.
pub open spec fn default_config_view() -> ConfigView {
    ConfigView {
        default_action: "gate"@,
        auto_update: true,
        check_interval: "24h"@,
        pinned_version: ""@,
        log_level: "info"@,
        redact: true,
        otel_endpoint: ""@,
        download_source: "github"@,
        release_repo: "cli/cli"@,
        gate_method: "sudo"@,
        gate_fresh: true,
        rules: Seq::new(
            4,
            |i: int| RuleView { pattern: seq![default_allowed_words()[i]], action: "allow"@ },
        ),
    }
}

/// The configuration written on first run: everything is gated except
/// `--version`, `--help`, `help` and `completion`.
pub fn default_config() -> (c: Config)
    ensures
        c@ == default_config_view(),
{
    let mut rules: Vec<Rule> = Vec::new();
    rules.push(single_word_rule("--version", "allow"));
    rules.push(single_word_rule("--help", "allow"));
    rules.push(single_word_rule("help", "allow"));
    rules.push(single_word_rule("completion", "allow"));
    let c = Config {
        default: DefaultSection { action: String::from_str("gate") },
        updates: UpdatesSection {
            auto_update: true,
            check_interval: String::from_str("24h"),
            pinned_version: String::from_str(""),
        },
        logging: LoggingSection {
            level: String::from_str("info"),
            redact: true,
            otel_endpoint: String::from_str(""),
        },
        real_gh: RealGhSection {
            download_source: String::from_str("github"),
            release_repo: String::from_str("cli/cli"),
        },
        gate: GateSection { method: String::from_str("sudo"), fresh: true },
        rules,
    };
    assert(c@.rules =~= default_config_view().rules);
    c
}

proof fn lemma_no_rule_problem(rules: Seq<RuleView>, i: int, j: int)
    requires
        0 <= i <= j < rules.len(),
        first_rule_problem(rules, i) is None,
    ensures
        rule_problem(rules[j], j) is None,
    decreases j - i,
{
    if i < j {
        lemma_no_rule_problem(rules, i + 1, j);
    }
}

/// A configuration that passes validation has a valid default action, the
/// `sudo` gate, the `github` download source, a release repository of the
/// form `owner/name`, and rules that each have a valid action and a
/// non-empty pattern (an empty pattern would match every command).
pub proof fn law_valid_config_shape(c: ConfigView)
    requires
        config_problem(c) is None,
    ensures
        is_valid_action(c.default_action),
        c.gate_method == "sudo"@,
        c.download_source == "github"@,
        seq_contains(c.release_repo, "/"@),
        forall|j: int|
            0 <= j < c.rules.len() ==> is_valid_action(#[trigger] c.rules[j].action)
                && c.rules[j].pattern.len() > 0,
{
    assert forall|j: int| 0 <= j < c.rules.len() implies is_valid_action(#[trigger] c.rules[j].action)
        && c.rules[j].pattern.len() > 0 by {
        lemma_no_rule_problem(c.rules, 0, j);
    }
}

proof fn lemma_rules_fine(rules: Seq<RuleView>, i: int)
    requires
        0 <= i <= rules.len(),
        forall|j: int| 0 <= j < rules.len() ==> rule_problem(#[trigger] rules[j], j) is None,
    ensures
        first_rule_problem(rules, i) is None,
    decreases rules.len() - i,
{
    if i < rules.len() {
        assert(rule_problem(rules[i], i) is None);
        lemma_rules_fine(rules, i + 1);
    }
}

/// A configuration passes validation exactly when these all hold: its
/// default action is one of the words allow, gate and deny; so is the action
/// of each rule; its gate method is `sudo`; its download source is
/// `github`; its release repository holds a `/`; no rule pattern is empty.
pub proof fn law_config_validity(c: ConfigView)
    ensures
        config_problem(c) is None <==> {
            &&& c.default_action == "allow"@ || c.default_action == "gate"@ || c.default_action
                == "deny"@
            &&& c.gate_method == "sudo"@
            &&& c.download_source == "github"@
            &&& c.release_repo.contains('/')
            &&& forall|j: int|
                0 <= j < c.rules.len() ==> ((#[trigger] c.rules[j]).action == "allow"@
                    || c.rules[j].action == "gate"@ || c.rules[j].action == "deny"@)
                    && c.rules[j].pattern.len() > 0
        },
{
    reveal_strlit("/");
    assert(seq_contains(c.release_repo, "/"@) <==> c.release_repo.contains('/')) by {
        if seq_contains(c.release_repo, "/"@) {
            let i = choose|i: int| seq_occurs_at(c.release_repo, "/"@, i);
            assert(c.release_repo.subrange(i, i + 1)[0] == c.release_repo[i]);
        }
        if c.release_repo.contains('/') {
            let i = choose|i: int| 0 <= i < c.release_repo.len() && c.release_repo[i] == '/';
            assert(c.release_repo.subrange(i, i + 1) =~= "/"@);
            assert(seq_occurs_at(c.release_repo, "/"@, i));
        }
    }
    if config_problem(c) is None {
        law_valid_config_shape(c);
    } else if (c.default_action == "allow"@ || c.default_action == "gate"@ || c.default_action
        == "deny"@) && c.gate_method == "sudo"@ && c.download_source == "github"@
        && c.release_repo.contains('/') && forall|j: int|
        0 <= j < c.rules.len() ==> ((#[trigger] c.rules[j]).action == "allow"@ || c.rules[j].action
            == "gate"@ || c.rules[j].action == "deny"@) && c.rules[j].pattern.len() > 0 {
        lemma_rules_fine_when(c);
    }
}

proof fn lemma_rules_fine_when(c: ConfigView)
    requires
        is_valid_action(c.default_action),
        c.gate_method == "sudo"@,
        c.download_source == "github"@,
        seq_contains(c.release_repo, "/"@),
        forall|j: int|
            0 <= j < c.rules.len() ==> is_valid_action(#[trigger] c.rules[j].action)
                && c.rules[j].pattern.len() > 0,
    ensures
        config_problem(c) is None,
{
    assert forall|j: int| 0 <= j < c.rules.len() implies rule_problem(#[trigger] c.rules[j], j) is None by {
        assert(is_valid_action(c.rules[j].action));
    }
    lemma_rules_fine(c.rules, 0);
}

} // verus!
