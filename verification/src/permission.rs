use vstd::prelude::*;

use crate::glob::{glob, lemma_glob_reflexive, matches_pattern};
use crate::text::str_equal;

verus! {

/// What to do with a tool call.
#[derive(Debug, Clone, Copy, PartialEq, Eq, Structural)]
pub enum PermissionAction {
    Allow,
    Ask,
    Deny,
}

impl PermissionAction {
    pub fn default_ask() -> (r: Self)
        ensures
            r == PermissionAction::Ask,
    {
        PermissionAction::Ask
    }
}

impl Default for PermissionAction {
    fn default() -> (r: Self)
        ensures
            r == PermissionAction::Ask,
    {
        PermissionAction::Ask
    }
}

/// A target pattern and the action it selects (the tool is given separately).
#[derive(Debug)]
pub struct TargetRule {
    pub target: String,
    pub action: PermissionAction,
}

/// A rule as written in the configuration.
#[derive(Debug)]
pub struct ToolRuleEntry {
    pub tool: String,
    pub target: String,
    pub action: PermissionAction,
}

/// The mathematical content of a rule.
pub struct RuleSpec {
    pub tool: Seq<char>,
    pub target: Seq<char>,
    pub action: PermissionAction,
}

impl ToolRuleEntry {
    pub open spec fn spec(&self) -> RuleSpec {
        RuleSpec { tool: self.tool@, target: self.target@, action: self.action }
    }
}

/// Permission section of the configuration.
#[derive(Debug)]
pub struct PermissionConfig {
    pub default: PermissionAction,
    pub tools: Vec<ToolRuleEntry>,
    pub approved_path: String,
}

pub fn default_approved_path() -> (r: String)
    ensures
        r@ == "data/approved_rules.toml"@,
{
    String::from_str("data/approved_rules.toml")
}

impl Default for PermissionConfig {
    fn default() -> (r: Self)
        ensures
            r.default == PermissionAction::Ask,
            r.tools@.len() == 0,
            r.approved_path@ == "data/approved_rules.toml"@,
    {
        PermissionConfig {
            default: PermissionAction::Ask,
            tools: Vec::new(),
            approved_path: default_approved_path(),
        }
    }
}

/// The rules of one built-in tool, flattened into full rules, in order.
pub open spec fn tool_rules(tool: Seq<char>, rules: Seq<TargetRule>) -> Seq<RuleSpec> {
    rules.map_values(|r: TargetRule| RuleSpec { tool: tool, target: r.target@, action: r.action })
}

/// Built-in rule groups flattened in order: all rules of the first tool,
/// then all rules of the second, and so on.
pub open spec fn flatten_groups(groups: Seq<(String, Vec<TargetRule>)>) -> Seq<RuleSpec>
    decreases groups.len(),
{
    if groups.len() == 0 {
        Seq::empty()
    } else {
        flatten_groups(groups.drop_last()) + tool_rules(groups.last().0@, groups.last().1@)
    }
}

pub open spec fn entry_rules(entries: Seq<ToolRuleEntry>) -> Seq<RuleSpec> {
    entries.map_values(|e: ToolRuleEntry| e.spec())
}

/// Whether a rule applies to a call of `tool` on `target`.
pub open spec fn rule_applies(r: RuleSpec, tool: Seq<char>, target: Seq<char>) -> bool {
    r.tool == tool && glob(r.target, target)
}

/// The action of the first applicable rule at or after index `i`.
pub open spec fn first_match_from(rules: Seq<RuleSpec>, i: int, tool: Seq<char>, target: Seq<char>) -> Option<PermissionAction>
    decreases rules.len() - i,
{
    if i < 0 || i >= rules.len() {
        None
    } else if rule_applies(rules[i], tool, target) {
        Some(rules[i].action)
    } else {
        first_match_from(rules, i + 1, tool, target)
    }
}

/// The action of the first applicable rule, if any.
pub open spec fn first_match(rules: Seq<RuleSpec>, tool: Seq<char>, target: Seq<char>) -> Option<PermissionAction> {
    first_match_from(rules, 0, tool, target)
}

/// The index of the first rule for exactly this tool and target pattern.
pub open spec fn find_rule_from(rules: Seq<RuleSpec>, i: int, tool: Seq<char>, target: Seq<char>) -> Option<int>
    decreases rules.len() - i,
{
    if i < 0 || i >= rules.len() {
        None
    } else if rules[i].tool == tool && rules[i].target == target {
        Some(i)
    } else {
        find_rule_from(rules, i + 1, tool, target)
    }
}

/// The mathematical state of an evaluator: a default and three ordered rule
/// lists, consulted approved first, then configured, then built-in.
pub struct EvaluatorView {
    pub default: PermissionAction,
    pub builtin: Seq<RuleSpec>,
    pub config: Seq<RuleSpec>,
    pub approved: Seq<RuleSpec>,
}

/// The decision for a call of `tool` on `target` (no target reads as `*`).
pub open spec fn evaluate_spec(v: EvaluatorView, tool: Seq<char>, target: Option<Seq<char>>) -> PermissionAction {
    let t = match target {
        Some(t) => t,
        None => seq!['*'],
    };
    match first_match(v.approved, tool, t) {
        Some(a) => a,
        None => match first_match(v.config, tool, t) {
            Some(a) => a,
            None => match first_match(v.builtin, tool, t) {
                Some(a) => a,
                None => v.default,
            },
        },
    }
}

/// Approving `tool` on `target` for the session: an existing approved rule
/// with exactly this tool and target becomes `Allow`; otherwise an `Allow`
/// rule is appended.
pub open spec fn approve_spec(approved: Seq<RuleSpec>, tool: Seq<char>, target: Seq<char>) -> Seq<RuleSpec> {
    match find_rule_from(approved, 0, tool, target) {
        Some(i) => approved.update(i, RuleSpec { action: PermissionAction::Allow, ..approved[i] }),
        None => approved.push(RuleSpec { tool: tool, target: target, action: PermissionAction::Allow }),
    }
}

proof fn lemma_find_rule_from(rules: Seq<RuleSpec>, i: int, tool: Seq<char>, target: Seq<char>)
    requires
        0 <= i <= rules.len(),
    ensures
        match find_rule_from(rules, i, tool, target) {
            Some(k) => {
                &&& i <= k < rules.len()
                &&& rules[k].tool == tool
                &&& rules[k].target == target
                &&& forall|m: int| i <= m < k ==> !(rules[m].tool == tool && rules[m].target == target)
            },
            None => forall|m: int|
                i <= m < rules.len() ==> !(rules[m].tool == tool && rules[m].target == target),
        },
    decreases rules.len() - i,
{
    if i < rules.len() {
        lemma_find_rule_from(rules, i + 1, tool, target);
    }
}

/// If some rule from `i` on applies and every applicable rule there allows,
/// the first match allows.
proof fn lemma_first_match_allows(rules: Seq<RuleSpec>, i: int, k: int, tool: Seq<char>, target: Seq<char>)
    requires
        0 <= i <= k < rules.len(),
        rule_applies(rules[k], tool, target),
        forall|m: int| i <= m < rules.len() && rule_applies(rules[m], tool, target) ==> rules[m].action
            == PermissionAction::Allow,
    ensures
        first_match_from(rules, i, tool, target) == Some(PermissionAction::Allow),
    decreases k - i,
{
    if !rule_applies(rules[i], tool, target) {
        lemma_first_match_allows(rules, i + 1, k, tool, target);
    }
}

/// The first match from `i` is the action of rule `k` when `k` is the first
/// applicable rule at or after `i`.
proof fn lemma_first_applicable_at(rules: Seq<RuleSpec>, i: int, k: int, tool: Seq<char>, target: Seq<char>)
    requires
        0 <= i <= k < rules.len(),
        rule_applies(rules[k], tool, target),
        forall|m: int| i <= m < k ==> !rule_applies(#[trigger] rules[m], tool, target),
    ensures
        first_match_from(rules, i, tool, target) == Some(rules[k].action),
    decreases k - i,
{
    if i < k {
        lemma_first_applicable_at(rules, i + 1, k, tool, target);
    }
}

/// There is no first match from `i` when no rule there applies.
proof fn lemma_none_applicable(rules: Seq<RuleSpec>, i: int, tool: Seq<char>, target: Seq<char>)
    requires
        0 <= i <= rules.len(),
        forall|m: int| i <= m < rules.len() ==> !rule_applies(#[trigger] rules[m], tool, target),
    ensures
        first_match_from(rules, i, tool, target) is None,
    decreases rules.len() - i,
{
    if i < rules.len() {
        lemma_none_applicable(rules, i + 1, tool, target);
    }
}

/// A call is decided by the first rule that applies to it (a rule applies
/// when it names the tool and its glob pattern matches the target, `*` when
/// there is none): among the approved rules, in their order; when none of
/// them applies, among the configured rules, in their order; then among the
/// built-in rules; and when no rule at all applies, by the default.
pub proof fn lemma_first_applicable_rule_decides(v: EvaluatorView, tool: Seq<char>, target: Option<Seq<char>>)
    ensures
        ({
            let t = match target {
                Some(t) => t,
                None => seq!['*'],
            };
            let none_of = |rs: Seq<RuleSpec>|
                forall|m: int| 0 <= m < rs.len() ==> !(#[trigger] rs[m].tool == tool && glob(rs[m].target, t));
            let first_at = |rs: Seq<RuleSpec>, k: int|
                0 <= k < rs.len() && rs[k].tool == tool && glob(rs[k].target, t) && forall|m: int|
                    0 <= m < k ==> !(#[trigger] rs[m].tool == tool && glob(rs[m].target, t));
            &&& forall|k: int| #[trigger] first_at(v.approved, k) ==> evaluate_spec(v, tool, target) == v.approved[k].action
            &&& forall|k: int| none_of(v.approved) && #[trigger] first_at(v.config, k) ==> evaluate_spec(v, tool, target)
                == v.config[k].action
            &&& forall|k: int|
                none_of(v.approved) && none_of(v.config) && #[trigger] first_at(v.builtin, k) ==> evaluate_spec(
                    v,
                    tool,
                    target,
                ) == v.builtin[k].action
            &&& none_of(v.approved) && none_of(v.config) && none_of(v.builtin) ==> evaluate_spec(v, tool, target)
                == v.default
        }),
{
    let t = match target {
        Some(t) => t,
        None => seq!['*'],
    };
    let none_of = |rs: Seq<RuleSpec>|
        forall|m: int| 0 <= m < rs.len() ==> !(#[trigger] rs[m].tool == tool && glob(rs[m].target, t));
    let first_at = |rs: Seq<RuleSpec>, k: int|
        0 <= k < rs.len() && rs[k].tool == tool && glob(rs[k].target, t) && forall|m: int|
            0 <= m < k ==> !(#[trigger] rs[m].tool == tool && glob(rs[m].target, t));
    assert forall|rs: Seq<RuleSpec>, k: int| #[trigger] first_at(rs, k) implies first_match(rs, tool, t) == Some(
        rs[k].action,
    ) by {
        lemma_first_applicable_at(rs, 0, k, tool, t);
    }
    assert forall|rs: Seq<RuleSpec>| #[trigger] none_of(rs) implies first_match(rs, tool, t) is None by {
        lemma_none_applicable(rs, 0, tool, t);
    }
}

/// After approving `tool` on `target`, a call of that tool on exactly that
/// target is allowed, provided no approved rule for the tool says otherwise.
pub proof fn lemma_approve_then_allowed(v: EvaluatorView, tool: Seq<char>, target: Seq<char>)
    requires
        forall|i: int| 0 <= i < v.approved.len() && v.approved[i].tool == tool ==> v.approved[i].action
            == PermissionAction::Allow,
    ensures
        evaluate_spec(
            EvaluatorView { approved: approve_spec(v.approved, tool, target), ..v },
            tool,
            Some(target),
        ) == PermissionAction::Allow,
{
    let a = v.approved;
    let n = approve_spec(a, tool, target);
    lemma_find_rule_from(a, 0, tool, target);
    lemma_glob_reflexive(target);
    let k = match find_rule_from(a, 0, tool, target) {
        Some(i) => i,
        None => a.len() as int,
    };
    assert(n[k].tool == tool && n[k].target == target && n[k].action == PermissionAction::Allow);
    assert(rule_applies(n[k], tool, target));
    assert forall|m: int| 0 <= m < n.len() && rule_applies(n[m], tool, target) implies n[m].action
        == PermissionAction::Allow by {
        if m != k {
            assert(n[m] == a[m]);
        }
    }
    lemma_first_match_allows(n, 0, k, tool, target);
}

/// Rules persisted by `approve_always` and loaded back with `set_approved`
/// into an evaluator with the same default, configured and built-in rules
/// decide every call as the evaluator that approved them.
pub proof fn lemma_reloaded_rules_decide_alike(
    approving: EvaluatorView,
    persisted: Seq<ToolRuleEntry>,
    reloaded: EvaluatorView,
    tool: Seq<char>,
    target: Option<Seq<char>>,
)
    requires
        entry_rules(persisted) == approving.approved,
        reloaded.approved == entry_rules(persisted),
        reloaded.default == approving.default,
        reloaded.config == approving.config,
        reloaded.builtin == approving.builtin,
    ensures
        evaluate_spec(reloaded, tool, target) == evaluate_spec(approving, tool, target),
{
}

/// Approving the same tool and target twice is the same as approving once.
pub proof fn lemma_approve_idempotent(approved: Seq<RuleSpec>, tool: Seq<char>, target: Seq<char>)
    ensures
        approve_spec(approve_spec(approved, tool, target), tool, target) == approve_spec(
            approved,
            tool,
            target,
        ),
{
    let a = approved;
    let n = approve_spec(a, tool, target);
    lemma_find_rule_from(a, 0, tool, target);
    lemma_find_rule_from(n, 0, tool, target);
    match find_rule_from(a, 0, tool, target) {
        Some(i) => {
            assert(forall|m: int| 0 <= m < i ==> n[m] == a[m]);
            assert(n[i].tool == tool && n[i].target == target);
            match find_rule_from(n, 0, tool, target) {
                Some(k2) => {
                    if k2 < i {
                        assert(n[k2] == a[k2]);
                    }
                },
                None => {},
            }
            assert(find_rule_from(n, 0, tool, target) == Some(i));
            assert(approve_spec(n, tool, target) =~= n);
        },
        None => {
            assert(forall|m: int| 0 <= m < a.len() ==> n[m] == a[m]);
            let last = a.len() as int;
            assert(n[last].tool == tool && n[last].target == target);
            match find_rule_from(n, 0, tool, target) {
                Some(k2) => {
                    if k2 < last {
                        assert(n[k2] == a[k2]);
                    }
                },
                None => {},
            }
            assert(find_rule_from(n, 0, tool, target) == Some(last));
            assert(approve_spec(n, tool, target) =~= n);
        },
    }
}

struct Rule {
    tool: String,
    target: String,
    action: PermissionAction,
}

impl Rule {
    spec fn spec(&self) -> RuleSpec {
        RuleSpec { tool: self.tool@, target: self.target@, action: self.action }
    }
}

spec fn rules_spec(rules: Seq<Rule>) -> Seq<RuleSpec> {
    rules.map_values(|r: Rule| r.spec())
}

/// Decides tool permissions from built-in, configured and user-approved rules.
pub struct PermissionEvaluator {
    default: PermissionAction,
    builtin: Vec<Rule>,
    config: Vec<Rule>,
    approved: Vec<Rule>,
}

impl View for PermissionEvaluator {
    type V = EvaluatorView;

    closed spec fn view(&self) -> EvaluatorView {
        EvaluatorView {
            default: self.default,
            builtin: rules_spec(self.builtin@),
            config: rules_spec(self.config@),
            approved: rules_spec(self.approved@),
        }
    }
}

fn flatten_builtin(builtin: &Vec<(String, Vec<TargetRule>)>) -> (rules: Vec<Rule>)
    ensures
        rules_spec(rules@) == flatten_groups(builtin@),
{
    let mut rules: Vec<Rule> = Vec::new();
    let mut i: usize = 0;
    while i < builtin.len()
        invariant
            i <= builtin.len(),
            rules_spec(rules@) == flatten_groups(builtin@.take(i as int)),
        decreases builtin.len() - i,
    {
        let group = &builtin[i];
        let ghost before = rules_spec(rules@);
        let mut j: usize = 0;
        while j < group.1.len()
            invariant
                j <= group.1.len(),
                group == builtin@[i as int],
                rules_spec(rules@) == before + tool_rules(group.0@, group.1@.take(j as int)),
            decreases group.1.len() - j,
        {
            let tr = &group.1[j];
            let ghost old_rules = rules@;
            let rule = Rule { tool: group.0.clone(), target: tr.target.clone(), action: tr.action };
            rules.push(rule);
            proof {
                assert(rules_spec(rules@) =~= rules_spec(old_rules).push(rule.spec()));
                assert(group.1@.take(j + 1) =~= group.1@.take(j as int).push(group.1@[j as int]));
                assert(tool_rules(group.0@, group.1@.take(j + 1)) =~= tool_rules(
                    group.0@,
                    group.1@.take(j as int),
                ).push(rule.spec()));
                assert(rules_spec(rules@) =~= before + tool_rules(group.0@, group.1@.take(j + 1)));
            }
            j = j + 1;
        }
        proof {
            assert(group.1@.take(group.1.len() as int) =~= group.1@);
            assert(builtin@.take(i + 1).drop_last() =~= builtin@.take(i as int));
            assert(builtin@.take(i + 1).last() == builtin@[i as int]);
        }
        i = i + 1;
    }
    proof {
        assert(builtin@.take(builtin.len() as int) =~= builtin@);
    }
    rules
}

fn rules_from_entries(entries: &Vec<ToolRuleEntry>) -> (rules: Vec<Rule>)
    ensures
        rules_spec(rules@) == entry_rules(entries@),
{
    let mut rules: Vec<Rule> = Vec::new();
    let mut i: usize = 0;
    while i < entries.len()
        invariant
            i <= entries.len(),
            rules_spec(rules@) == entry_rules(entries@.take(i as int)),
        decreases entries.len() - i,
    {
        let e = &entries[i];
        let ghost old_rules = rules@;
        let rule = Rule { tool: e.tool.clone(), target: e.target.clone(), action: e.action };
        rules.push(rule);
        proof {
            assert(rules_spec(rules@) =~= rules_spec(old_rules).push(rule.spec()));
            assert(entries@.take(i + 1) =~= entries@.take(i as int).push(entries@[i as int]));
            assert(entry_rules(entries@.take(i + 1)) =~= entry_rules(entries@.take(i as int)).push(
                rule.spec(),
            ));
        }
        i = i + 1;
    }
    proof {
        assert(entries@.take(entries.len() as int) =~= entries@);
    }
    rules
}

/// The first applicable rule's action, scanning from the front.
fn first_match_exec(rules: &Vec<Rule>, tool: &str, target: &str) -> (r: Option<PermissionAction>)
    ensures
        r == first_match(rules_spec(rules@), tool@, target@),
{
    let ghost rs = rules_spec(rules@);
    let mut i: usize = 0;
    while i < rules.len()
        invariant
            i <= rules.len(),
            rs == rules_spec(rules@),
            first_match(rs, tool@, target@) == first_match_from(rs, i as int, tool@, target@),
        decreases rules.len() - i,
    {
        let rule = &rules[i];
        if str_equal(rule.tool.as_str(), tool) && matches_pattern(rule.target.as_str(), target) {
            return Some(rule.action);
        }
        i = i + 1;
    }
    None
}

impl PermissionEvaluator {
    pub fn new(
        default: PermissionAction,
        builtin: Vec<(String, Vec<TargetRule>)>,
        config_tools: Vec<ToolRuleEntry>,
    ) -> (r: Self)
        ensures
            r@.default == default,
            r@.builtin == flatten_groups(builtin@),
            r@.config == entry_rules(config_tools@),
            r@.approved.len() == 0,
    {
        let builtin_rules = flatten_builtin(&builtin);
        let config = rules_from_entries(&config_tools);
        let r = PermissionEvaluator {
            default,
            builtin: builtin_rules,
            config,
            approved: Vec::new(),
        };
        assert(r@.approved =~= Seq::<RuleSpec>::empty());
        r
    }

    /// Replaces the built-in rules (they change with the run mode).
    pub fn set_mode_rules(&mut self, builtin: Vec<(String, Vec<TargetRule>)>)
        ensures
            final(self)@ == (EvaluatorView { builtin: flatten_groups(builtin@), ..old(self)@ }),
    {
        self.builtin = flatten_builtin(&builtin);
    }

    /// The action for a call of `tool` on `target`: the first applicable
    /// approved rule, else configured rule, else built-in rule, else the default.
    pub fn evaluate(&self, tool: &str, target: Option<&str>) -> (r: PermissionAction)
        ensures
            r == evaluate_spec(self@, tool@, match target {
                Some(t) => Some(t@),
                None => None,
            }),
    {
        let target_str: &str = match target {
            Some(t) => t,
            None => "*",
        };
        proof {
            reveal_strlit("*");
        }
        assert(target_str@ == match target {
            Some(t) => t@,
            None => seq!['*'],
        });
        match first_match_exec(&self.approved, tool, target_str) {
            Some(a) => return a,
            None => {},
        }
        match first_match_exec(&self.config, tool, target_str) {
            Some(a) => return a,
            None => {},
        }
        match first_match_exec(&self.builtin, tool, target_str) {
            Some(a) => return a,
            None => {},
        }
        self.default
    }

    /// Allows `tool` on `target` for the rest of the session.
    pub fn approve_session(&mut self, tool: &str, target: String)
        ensures
            final(self)@ == (EvaluatorView {
                approved: approve_spec(old(self)@.approved, tool@, target@),
                ..old(self)@
            }),
    {
        let ghost rs = rules_spec(self.approved@);
        let mut i: usize = 0;
        while i < self.approved.len()
            invariant
                i <= self.approved.len(),
                rs == rules_spec(self.approved@),
                self@ == old(self)@,
                find_rule_from(rs, 0, tool@, target@) == find_rule_from(rs, i as int, tool@, target@),
            decreases self.approved.len() - i,
        {
            if str_equal(self.approved[i].tool.as_str(), tool) && str_equal(
                self.approved[i].target.as_str(),
                target.as_str(),
            ) {
                let tool_name = self.approved[i].tool.clone();
                let old_target = self.approved[i].target.clone();
                self.approved.set(
                    i,
                    Rule { tool: tool_name, target: old_target, action: PermissionAction::Allow },
                );
                proof {
                    assert(rules_spec(self.approved@) =~= approve_spec(rs, tool@, target@));
                }
                return ;
            }
            i = i + 1;
        }
        self.approved.push(
            Rule { tool: String::from_str(tool), target, action: PermissionAction::Allow },
        );
        proof {
            assert(rules_spec(self.approved@) =~= approve_spec(rs, tool@, target@));
        }
    }

    /// Allows `tool` on `target` from now on; returns the approved rules,
    /// which are what gets persisted.
    pub fn approve_always(&mut self, tool: &str, target: String) -> (persist: Vec<ToolRuleEntry>)
        ensures
            final(self)@ == (EvaluatorView {
                approved: approve_spec(old(self)@.approved, tool@, target@),
                ..old(self)@
            }),
            entry_rules(persist@) == final(self)@.approved,
    {
        self.approve_session(tool, target);
        self.approved_rules()
    }

    /// The approved rules, in order.
    pub fn approved_rules(&self) -> (r: Vec<ToolRuleEntry>)
        ensures
            entry_rules(r@) == self@.approved,
    {
        let mut out: Vec<ToolRuleEntry> = Vec::new();
        let mut i: usize = 0;
        while i < self.approved.len()
            invariant
                i <= self.approved.len(),
                entry_rules(out@) == rules_spec(self.approved@.take(i as int)),
            decreases self.approved.len() - i,
        {
            let r = &self.approved[i];
            let ghost old_out = out@;
            let e = ToolRuleEntry { tool: r.tool.clone(), target: r.target.clone(), action: r.action };
            out.push(e);
            proof {
                assert(entry_rules(out@) =~= entry_rules(old_out).push(e.spec()));
                assert(self.approved@.take(i + 1) =~= self.approved@.take(i as int).push(
                    self.approved@[i as int],
                ));
                assert(rules_spec(self.approved@.take(i + 1)) =~= rules_spec(
                    self.approved@.take(i as int),
                ).push(e.spec()));
            }
            i = i + 1;
        }
        proof {
            assert(self.approved@.take(self.approved.len() as int) =~= self.approved@);
        }
        out
    }

    /// Replaces the approved rules (those loaded from the persisted file).
    pub fn set_approved(&mut self, rules: Vec<ToolRuleEntry>)
        ensures
            final(self)@ == (EvaluatorView { approved: entry_rules(rules@), ..old(self)@ }),
    {
        self.approved = rules_from_entries(&rules);
    }
}

} // verus!
