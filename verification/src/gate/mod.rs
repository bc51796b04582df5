//! Gate registry: dangerous tool calls pause for explicit approval.
//!
//! Gated operations are matched by the rules of a [`GateRegistry`]; nothing matched there
//! executes without the user's verdict. A matching request becomes a [`PendingGate`];
//! [`GateManager::respond`] substitutes the (possibly edited) params back into the tool
//! args before the call is allowed through.
pub mod editing;
pub mod roundtrip;
pub mod rules;
pub mod shell;
pub mod showing;
pub mod splicing;
pub mod spotting;
pub mod verdicts;
pub mod wrapping;
use crate::agent::EngineCall;
use crate::bus::{event_views, Event, EventV};
use crate::effects::EngineCallV;
use crate::error::{is_invalid_data, MaestroError};
use crate::gate::rules::{
    command_in, copy_params, edited_value_of, params_view, push_opt, spliced, EditV, GateMatch,
    GateMatchV, GateParam, GateParamV, GateRule, GhPrCreateRule, GitCommitRule, GitPushRule,
};
use crate::json::{Json, JsonV};
use crate::outside::Stamp;
use crate::table::{t_del, t_get, t_get_del, t_put, t_unique, Table};
use crate::text::{opt_text, opt_view, same_text, text_of};
use vstd::prelude::*;
use vstd::string::*;

verus! {

/// Settings key: when `"true"`, `git commit` is gated too (push and PR always are).
pub const SETTING_GATE_COMMIT: &'static str = "gate_commit";

/// A built-in rule.
#[derive(Clone, Copy, Debug)]
pub enum Rule {
    Push(GitPushRule),
    PrCreate(GhPrCreateRule),
    Commit(GitCommitRule),
}

impl GateRule for Rule {
    open spec fn id_text(&self) -> Seq<char> {
        match *self {
            Rule::Push(r) => r.id_text(),
            Rule::PrCreate(r) => r.id_text(),
            Rule::Commit(r) => r.id_text(),
        }
    }

    open spec fn match_of(&self, tool: Seq<char>, args: JsonV) -> Option<GateMatchV> {
        match *self {
            Rule::Push(r) => r.match_of(tool, args),
            Rule::PrCreate(r) => r.match_of(tool, args),
            Rule::Commit(r) => r.match_of(tool, args),
        }
    }

    open spec fn applied(&self, args: JsonV, edited: Seq<GateParamV>) -> JsonV {
        match *self {
            Rule::Push(r) => r.applied(args, edited),
            Rule::PrCreate(r) => r.applied(args, edited),
            Rule::Commit(r) => r.applied(args, edited),
        }
    }

    fn id(&self) -> (r: &'static str) {
        match self {
            Rule::Push(r) => r.id(),
            Rule::PrCreate(r) => r.id(),
            Rule::Commit(r) => r.id(),
        }
    }

    fn matches(&self, tool: &str, args: &Json) -> (r: Option<GateMatch>) {
        match self {
            Rule::Push(r) => r.matches(tool, args),
            Rule::PrCreate(r) => r.matches(tool, args),
            Rule::Commit(r) => r.matches(tool, args),
        }
    }

    fn apply(&self, args: &Json, edited: &Vec<GateParam>) -> (r: Json) {
        match self {
            Rule::Push(r) => r.apply(args, edited),
            Rule::PrCreate(r) => r.apply(args, edited),
            Rule::Commit(r) => r.apply(args, edited),
        }
    }
}

/// What a rule is: its id, what it shows for a tool call, and the arguments that an approved
/// call runs with.
pub struct RuleV {
    pub id: Seq<char>,
    pub match_of: spec_fn(Seq<char>, JsonV) -> Option<GateMatchV>,
    pub applied: spec_fn(JsonV, Seq<GateParamV>) -> JsonV,
}

pub open spec fn rule_view<R: GateRule>(rule: R) -> RuleV {
    RuleV {
        id: rule.id_text(),
        match_of: |tool: Seq<char>, args: JsonV| rule.match_of(tool, args),
        applied: |args: JsonV, edited: Seq<GateParamV>| rule.applied(args, edited),
    }
}

pub open spec fn rule_views<R: GateRule>(rules: Seq<R>) -> Seq<RuleV> {
    rules.map_values(|rule: R| rule_view(rule))
}

/// The rules in their order of registration. A new gated action is a new [`GateRule`] and one
/// [`GateRegistry::register`] call; the built-in ones are those of [`Rule`].
#[derive(Debug)]
pub struct GateRegistry<R: GateRule = Rule> {
    pub rules: Vec<R>,
}

impl<R: GateRule> View for GateRegistry<R> {
    type V = Seq<RuleV>;

    open spec fn view(&self) -> Seq<RuleV> {
        rule_views(self.rules@)
    }
}

/// The best match among the first `n` rules: the one with the most editable params; of
/// equals, the first.
pub open spec fn best_match(rules: Seq<RuleV>, tool: Seq<char>, args: JsonV, n: int) -> Option<
    (int, GateMatchV),
>
    decreases n,
{
    if n <= 0 {
        None
    } else {
        let best = best_match(rules, tool, args, n - 1);
        match (rules[n - 1].match_of)(tool, args) {
            None => best,
            Some(m) => match best {
                Some((_, b)) => if m.params.len() > b.params.len() {
                    Some((n - 1, m))
                } else {
                    best
                },
                None => Some((n - 1, m)),
            },
        }
    }
}

/// The first rule from `i` on with this id.
pub open spec fn rule_with_id(rules: Seq<RuleV>, id: Seq<char>, i: int) -> Option<RuleV>
    decreases rules.len() - i,
{
    if i < 0 || i >= rules.len() {
        None
    } else if rules[i].id == id {
        Some(rules[i])
    } else {
        rule_with_id(rules, id, i + 1)
    }
}

/// The index of a best match is one of the rules, and the match is that rule's own.
pub proof fn best_match_is_a_match(rules: Seq<RuleV>, tool: Seq<char>, args: JsonV, n: int)
    requires
        0 <= n <= rules.len(),
    ensures
        best_match(rules, tool, args, n) matches Some((i, m)) ==> 0 <= i < n && (rules[i].match_of)(
            tool,
            args,
        ) == Some(m),
    decreases n,
{
    if n > 0 {
        best_match_is_a_match(rules, tool, args, n - 1);
    }
}

/// Fail-closed: as soon as one rule matches a tool call, the registry does.
pub proof fn a_matching_rule_gates(
    rules: Seq<RuleV>,
    tool: Seq<char>,
    args: JsonV,
    n: int,
    i: int,
)
    requires
        0 <= i < n <= rules.len(),
        (rules[i].match_of)(tool, args) is Some,
    ensures
        best_match(rules, tool, args, n) is Some,
    decreases n,
{
    if i < n - 1 {
        a_matching_rule_gates(rules, tool, args, n - 1, i);
    }
}

impl<R: GateRule> GateRegistry<R> {
    pub fn new() -> (r: Self)
        ensures
            r@ == Seq::<RuleV>::empty(),
    {
        let r: GateRegistry<R> = GateRegistry { rules: Vec::new() };
        assert(r@ =~= Seq::<RuleV>::empty());
        r
    }

    pub fn register(&mut self, rule: R)
        ensures
            final(self)@ == old(self)@.push(rule_view(rule)),
    {
        self.rules.push(rule);
        assert(self@ =~= old(self)@.push(rule_view(rule)));
    }

    /// Best match across all rules. Several rules can match one command line
    /// (`git push … && gh pr create …`); the one with the most editable params wins so the
    /// user still edits the PR title and body, and ties break on registration order.
    pub fn match_tool(&self, tool: &str, args: &Json) -> (r: Option<(usize, GateMatch)>)
        ensures
            match r {
                Some((i, m)) => best_match(self@, tool@, args@, self@.len() as int) == Some(
                    (i as int, m@),
                ) && i < self@.len(),
                None => best_match(self@, tool@, args@, self@.len() as int) is None,
            },
    {
        let ghost rules = self@;
        let mut best: Option<(usize, GateMatch)> = None;
        let mut i: usize = 0;
        while i < self.rules.len()
            invariant
                i <= self.rules@.len(),
                rules == self@,
                rules.len() == self.rules@.len(),
                match best {
                    Some((k, m)) => best_match(rules, tool@, args@, i as int) == Some(
                        (k as int, m@),
                    ) && k < i,
                    None => best_match(rules, tool@, args@, i as int) is None,
                },
            decreases self.rules@.len() - i,
        {
            assert(rules[i as int] == rule_view(self.rules@[i as int]));
            match self.rules[i].matches(tool, args) {
                Some(m) => {
                    let better: bool = match &best {
                        Some((_, b)) => m.params.len() > b.params.len(),
                        None => true,
                    };
                    if better {
                        best = Some((i, m));
                    }
                },
                None => {},
            }
            i += 1;
        }
        best
    }

    /// The first rule with this id.
    pub fn rule(&self, id: &str) -> (r: Option<&R>)
        ensures
            match r {
                Some(rule) => rule_with_id(self@, id@, 0) == Some(rule_view(*rule)),
                None => rule_with_id(self@, id@, 0) is None,
            },
    {
        let ghost rules = self@;
        let mut i: usize = 0;
        while i < self.rules.len()
            invariant
                i <= self.rules@.len(),
                rules == self@,
                rules.len() == self.rules@.len(),
                rule_with_id(rules, id@, i as int) == rule_with_id(rules, id@, 0),
            decreases self.rules@.len() - i,
        {
            assert(rules[i as int] == rule_view(self.rules@[i as int]));
            if same_text(self.rules[i].id(), id) {
                return Some(&self.rules[i]);
            }
            i += 1;
        }
        None
    }
}

/// The built-in rules for a value of the `gate_commit` setting.
pub open spec fn builtin_rules(gate_commit: Option<Seq<char>>) -> Seq<RuleV> {
    let always = seq![
        rule_view(Rule::Push(GitPushRule)),
        rule_view(Rule::PrCreate(GhPrCreateRule)),
    ];
    if gate_commit == Some("true"@) {
        always.push(rule_view(Rule::Commit(GitCommitRule)))
    } else {
        always
    }
}

/// Built-in rules, honoring the `gate_commit` setting. A setting that cannot be read
/// leaves the commit gate off.
pub fn build_registry(gate_commit: Option<&str>) -> (r: GateRegistry)
    ensures
        r@ == builtin_rules(
            match gate_commit {
                Some(s) => Some(s@),
                None => None,
            },
        ),
{
    let mut registry: GateRegistry = GateRegistry::new();
    registry.register(Rule::Push(GitPushRule));
    registry.register(Rule::PrCreate(GhPrCreateRule));
    assert(registry@ =~= builtin_rules(None));
    match gate_commit {
        Some(value) => {
            if same_text(value, "true") {
                registry.register(Rule::Commit(GitCommitRule));
            }
        },
        None => {},
    }
    registry
}

/// Push and PR creation are gated whatever the settings say.
pub proof fn push_and_pr_are_always_gated(
    gate_commit: Option<Seq<char>>,
    tool: Seq<char>,
    args: JsonV,
)
    requires
        GitPushRule.match_of(tool, args) is Some || GhPrCreateRule.match_of(tool, args) is Some,
    ensures
        best_match(
            builtin_rules(gate_commit),
            tool,
            args,
            builtin_rules(gate_commit).len() as int,
        ) is Some,
{
    let rules = builtin_rules(gate_commit);
    assert(rules[0] == rule_view(Rule::Push(GitPushRule)));
    assert(rules[1] == rule_view(Rule::PrCreate(GhPrCreateRule)));
    if GitPushRule.match_of(tool, args) is Some {
        a_matching_rule_gates(rules, tool, args, rules.len() as int, 0);
    } else {
        a_matching_rule_gates(rules, tool, args, rules.len() as int, 1);
    }
}

/// A call that is approved without edits runs as it was asked for.
pub proof fn a_call_approved_as_is_runs_as_is(rule: Rule, args: JsonV, edited: Seq<GateParamV>)
    requires
        edited_value_of(edited, "title"@) is None,
        edited_value_of(edited, "body"@) is None,
        edited_value_of(edited, "message"@) is None,
    ensures
        rule.applied(args, edited) == args,
{
    match args {
        JsonV::Object(m) => {
            if command_in(args) is Some {
                let c = command_in(args)->0;
                assert(m.insert("command"@, JsonV::Text(c)) =~= m);
                assert(push_opt(Seq::<EditV>::empty(), None) =~= Seq::<EditV>::empty());
                assert(spliced(c, Seq::<EditV>::empty()) == c);
            }
        },
        _ => {},
    }
}

/// A tool call paused at a gate, waiting for the user's verdict.
#[derive(Debug)]
pub struct PendingGate {
    pub gate_id: String,
    pub request_id: String,
    pub session_id: String,
    pub branch: String,
    pub rule_id: String,
    pub kind: String,
    pub tool: String,
    pub params: Vec<GateParam>,
    /// Why this gate is approve-as-is (no editable params); `None` when editable.
    pub note: Option<String>,
    pub original_args: Json,
    /// Whether the call is paused by a gate check rather than by a permission request.
    pub by_check: bool,
    /// Nanoseconds since the Unix epoch.
    pub created_at: i128,
}

pub struct PendingGateV {
    pub gate_id: Seq<char>,
    pub request_id: Seq<char>,
    pub session_id: Seq<char>,
    pub branch: Seq<char>,
    pub rule_id: Seq<char>,
    pub kind: Seq<char>,
    pub tool: Seq<char>,
    pub params: Seq<GateParamV>,
    pub note: Option<Seq<char>>,
    pub original_args: JsonV,
    pub by_check: bool,
    pub created_at: i128,
}

impl View for PendingGate {
    type V = PendingGateV;

    open spec fn view(&self) -> PendingGateV {
        PendingGateV {
            gate_id: self.gate_id@,
            request_id: self.request_id@,
            session_id: self.session_id@,
            branch: self.branch@,
            rule_id: self.rule_id@,
            kind: self.kind@,
            tool: self.tool@,
            params: params_view(self.params@),
            note: opt_view(self.note),
            original_args: self.original_args@,
            by_check: self.by_check,
            created_at: self.created_at,
        }
    }
}

impl PendingGate {
    pub fn copy(&self) -> (r: PendingGate)
        ensures
            r@ == self@,
    {
        PendingGate {
            gate_id: text_of(self.gate_id.as_str()),
            request_id: text_of(self.request_id.as_str()),
            session_id: text_of(self.session_id.as_str()),
            branch: text_of(self.branch.as_str()),
            rule_id: text_of(self.rule_id.as_str()),
            kind: text_of(self.kind.as_str()),
            tool: text_of(self.tool.as_str()),
            params: copy_params(&self.params),
            note: opt_text(&self.note),
            original_args: self.original_args.copy(),
            by_check: self.by_check,
            created_at: self.created_at,
        }
    }
}

/// Owns the registry and the pending gates.
#[derive(Debug)]
pub struct GateManager<R: GateRule = Rule> {
    pub registry: GateRegistry<R>,
    pub pending: Table<PendingGate>,
}

/// What a gate manager is.
pub struct GatesV {
    pub rules: Seq<RuleV>,
    pub pending: Seq<(Seq<char>, PendingGateV)>,
}

impl<R: GateRule> View for GateManager<R> {
    type V = GatesV;

    open spec fn view(&self) -> GatesV {
        GatesV { rules: self.registry@, pending: self.pending@ }
    }
}

/// A tool call as it reaches a gate.
pub struct ToolCallV {
    pub session_id: Seq<char>,
    pub branch: Seq<char>,
    pub request_id: Seq<char>,
    pub tool: Seq<char>,
    pub args: JsonV,
    pub by_check: bool,
}

/// The pending gate that a tool call becomes; nothing where no rule matches.
pub open spec fn gate_for(rules: Seq<RuleV>, call: ToolCallV, id: Seq<char>, now: i128) -> Option<
    PendingGateV,
> {
    match best_match(rules, call.tool, call.args, rules.len() as int) {
        None => None,
        Some((i, m)) => Some(
            PendingGateV {
                gate_id: id,
                request_id: call.request_id,
                session_id: call.session_id,
                branch: call.branch,
                rule_id: rules[i].id,
                kind: m.kind,
                tool: call.tool,
                params: m.params,
                note: m.note,
                original_args: call.args,
                by_check: call.by_check,
                created_at: now,
            },
        ),
    }
}

pub open spec fn pending_event(g: PendingGateV) -> EventV {
    EventV::GatePending {
        gate_id: g.gate_id,
        session_id: g.session_id,
        tool: g.tool,
        kind: g.kind,
        branch: g.branch,
        params: g.params,
        note: g.note,
        raw_args: g.original_args,
    }
}

/// The ids of the gates that belong to a session, in their order.
pub open spec fn gates_of(pending: Seq<(Seq<char>, PendingGateV)>, session_id: Seq<char>) -> Seq<
    Seq<char>,
>
    decreases pending.len(),
{
    if pending.len() == 0 {
        seq![]
    } else {
        let before = gates_of(pending.drop_last(), session_id);
        if pending.last().1.session_id == session_id {
            before.push(pending.last().0)
        } else {
            before
        }
    }
}

/// The gates that do not belong to a session, in their order.
pub open spec fn gates_not_of(
    pending: Seq<(Seq<char>, PendingGateV)>,
    session_id: Seq<char>,
) -> Seq<(Seq<char>, PendingGateV)>
    decreases pending.len(),
{
    if pending.len() == 0 {
        seq![]
    } else {
        let before = gates_not_of(pending.drop_last(), session_id);
        if pending.last().1.session_id == session_id {
            before
        } else {
            before.push(pending.last())
        }
    }
}

pub open spec fn resolved_events(ids: Seq<Seq<char>>, reason: Seq<char>) -> Seq<EventV> {
    ids.map_values(|id: Seq<char>| EventV::GateResolved { gate_id: id, reason })
}

/// The gates without those of a session.
pub open spec fn cancelled(g: GatesV, session_id: Seq<char>) -> GatesV {
    GatesV { rules: g.rules, pending: gates_not_of(g.pending, session_id) }
}

/// No gate of the session is left, every other one is, and keys stay unique.
pub proof fn lemma_gates_not_of(pending: Seq<(Seq<char>, PendingGateV)>, session_id: Seq<char>)
    requires
        t_unique(pending),
    ensures
        t_unique(gates_not_of(pending, session_id)),
        forall|i: int|
            0 <= i < gates_not_of(pending, session_id).len() ==> pending.contains(
                #[trigger] gates_not_of(pending, session_id)[i],
            ) && gates_not_of(pending, session_id)[i].1.session_id != session_id,
        forall|i: int|
            0 <= i < pending.len() && (#[trigger] pending[i]).1.session_id != session_id
                ==> gates_not_of(pending, session_id).contains(pending[i]),
    decreases pending.len(),
{
    if pending.len() > 0 {
        let r = pending.drop_last();
        assert forall|a: int, b: int| 0 <= a < b < r.len() implies (#[trigger] r[a]).0 != (
        #[trigger] r[b]).0 by {
            assert(pending[a].0 != pending[b].0);
        }
        lemma_gates_not_of(r, session_id);
        let d = gates_not_of(r, session_id);
        let t = gates_not_of(pending, session_id);
        let last = pending.last();
        assert(pending[pending.len() - 1] == last);
        assert forall|i: int| 0 <= i < d.len() implies pending.contains(#[trigger] d[i]) && d[i].0
            != last.0 by {
            let j = choose|j: int| 0 <= j < r.len() && r[j] == d[i];
            assert(pending[j] == d[i]);
            assert(pending[j].0 != pending[pending.len() - 1].0);
        }
        if last.1.session_id != session_id {
            assert forall|i: int| 0 <= i < t.len() implies pending.contains(#[trigger] t[i])
                && t[i].1.session_id != session_id by {
                if i < d.len() {
                    assert(t[i] == d[i]);
                }
            }
            assert forall|a: int, b: int| 0 <= a < b < t.len() implies (#[trigger] t[a]).0 != (
            #[trigger] t[b]).0 by {
                assert(t[a] == d[a]);
                if b < d.len() {
                    assert(t[b] == d[b]);
                }
            }
        }
        assert forall|i: int|
            0 <= i < pending.len() && (#[trigger] pending[i]).1.session_id
                != session_id implies t.contains(pending[i]) by {
            if i < r.len() {
                assert(r[i] == pending[i]);
                assert(d.contains(r[i]));
                let k = choose|k: int| 0 <= k < d.len() && d[k] == r[i];
                assert(t[k] == r[i]);
            } else {
                assert(t[t.len() - 1] == pending[i]);
            }
        }
    }
}

/// `gates` with `g` behind every gate that is not younger.
pub open spec fn place_gate(gates: Seq<PendingGateV>, g: PendingGateV) -> Seq<PendingGateV>
    decreases gates.len(),
{
    if gates.len() == 0 || gates.last().created_at <= g.created_at {
        gates.push(g)
    } else {
        place_gate(gates.drop_last(), g).push(gates.last())
    }
}

/// The gates oldest first.
pub open spec fn oldest_first(pending: Seq<(Seq<char>, PendingGateV)>) -> Seq<PendingGateV>
    decreases pending.len(),
{
    if pending.len() == 0 {
        seq![]
    } else {
        place_gate(oldest_first(pending.drop_last()), pending.last().1)
    }
}

pub open spec fn by_age(gates: Seq<PendingGateV>) -> bool {
    forall|i: int, j: int|
        0 <= i < j < gates.len() ==> (#[trigger] gates[i]).created_at <= (
        #[trigger] gates[j]).created_at
}

proof fn lemma_place_gate(gates: Seq<PendingGateV>, g: PendingGateV)
    requires
        by_age(gates),
    ensures
        by_age(place_gate(gates, g)),
        place_gate(gates, g).to_multiset() == gates.to_multiset().insert(g),
    decreases gates.len(),
{
    broadcast use vstd::seq_lib::group_to_multiset_ensures;

    let p = place_gate(gates, g);
    if gates.len() == 0 || gates.last().created_at <= g.created_at {
        assert forall|i: int, j: int| 0 <= i < j < p.len() implies (#[trigger] p[i]).created_at <= (
        #[trigger] p[j]).created_at by {
            if j == gates.len() {
                assert(gates[i].created_at <= gates[gates.len() - 1].created_at);
            }
        }
    } else {
        let r = gates.drop_last();
        assert forall|i: int, j: int| 0 <= i < j < r.len() implies (#[trigger] r[i]).created_at <= (
        #[trigger] r[j]).created_at by {
            assert(gates[i].created_at <= gates[j].created_at);
        }
        lemma_place_gate(r, g);
        let q = place_gate(r, g);
        assert(r.push(gates.last()) =~= gates);
        assert forall|i: int| 0 <= i < q.len() implies (#[trigger] q[i]).created_at
            <= gates.last().created_at by {
            assert(q.to_multiset().count(q[i]) > 0);
            if q[i] != g {
                assert(r.to_multiset().count(q[i]) > 0);
                assert(r.contains(q[i]));
                let k = choose|k: int| 0 <= k < r.len() && r[k] == q[i];
                assert(gates[k].created_at <= gates[gates.len() - 1].created_at);
            }
        }
        assert(q.push(gates.last()).to_multiset() =~= gates.to_multiset().insert(g));
    }
}

/// The list is the pending gates, no more and no fewer, from the oldest to the youngest.
pub proof fn listed_gates_are_sorted(pending: Seq<(Seq<char>, PendingGateV)>)
    ensures
        by_age(oldest_first(pending)),
        oldest_first(pending).to_multiset() == pending.map_values(
            |p: (Seq<char>, PendingGateV)| p.1,
        ).to_multiset(),
    decreases pending.len(),
{
    broadcast use vstd::seq_lib::group_to_multiset_ensures;

    let f = |p: (Seq<char>, PendingGateV)| p.1;
    if pending.len() > 0 {
        listed_gates_are_sorted(pending.drop_last());
        lemma_place_gate(oldest_first(pending.drop_last()), pending.last().1);
        assert(pending.map_values(f) =~= pending.drop_last().map_values(f).push(
            pending.last().1,
        ));
    } else {
        assert(pending.map_values(f) =~= Seq::<PendingGateV>::empty());
    }
}

/// The answer to the engine for a verdict on a gate.
pub open spec fn verdict_call(
    g: PendingGateV,
    rule: Option<RuleV>,
    allow: bool,
    edited: Seq<GateParamV>,
    feedback: Option<Seq<char>>,
) -> EngineCallV {
    let updated_args = match rule {
        Some(r) => if allow {
            Some((r.applied)(g.original_args, edited))
        } else {
            None
        },
        None => None,
    };
    let message = if allow {
        None
    } else {
        feedback
    };
    if g.by_check {
        EngineCallV::RespondGateCheck {
            request_id: g.request_id,
            decision: if allow {
                "allow"@
            } else {
                "deny"@
            },
            updated_args,
            message,
        }
    } else {
        EngineCallV::RespondPermission { request_id: g.request_id, allow, updated_args, message }
    }
}

/// A gate is answered once: when its answer was accepted it is gone, and the others wait
/// on. Asking for it again is an error (see [`GateManager::respond`]).
pub proof fn a_gate_is_answered_once(
    pending: Seq<(Seq<char>, PendingGateV)>,
    gate_id: Seq<char>,
    other: Seq<char>,
)
    ensures
        t_get(t_del(pending, gate_id), gate_id) is None,
        other != gate_id ==> t_get(t_del(pending, gate_id), other) == t_get(pending, other),
{
    t_get_del(pending, gate_id, gate_id);
    t_get_del(pending, gate_id, other);
}

impl<R: GateRule> GateManager<R> {
    pub open spec fn wf(self) -> bool {
        self.pending.wf()
    }

    pub fn new(registry: GateRegistry<R>) -> (g: Self)
        ensures
            g.wf(),
            g@ == (GatesV { rules: registry@, pending: seq![] }),
    {
        let g: GateManager<R> = GateManager { registry, pending: Table::new() };
        assert(g.pending@ =~= seq![]);
        g
    }

    /// Try to gate a tool call. On a match a gate is recorded under the stamp's id and
    /// the event to publish is returned: the caller must then *not* forward the plain
    /// request. `None` means no rule matched and the normal flow should proceed.
    pub fn intercept(
        &mut self,
        session_id: &str,
        branch: &str,
        request_id: &str,
        tool: &str,
        args: &Json,
        by_check: bool,
        stamp: &Stamp,
    ) -> (r: Option<Event>)
        requires
            old(self).wf(),
        ensures
            final(self).wf(),
            ({
                let call = ToolCallV {
                    session_id: session_id@,
                    branch: branch@,
                    request_id: request_id@,
                    tool: tool@,
                    args: args@,
                    by_check,
                };
                match gate_for(old(self)@.rules, call, stamp.id@, stamp.now) {
                    Some(g) => final(self)@ == (GatesV {
                        rules: old(self)@.rules,
                        pending: t_put(old(self)@.pending, stamp.id@, g),
                    }) && (r matches Some(e) && e@ == pending_event(g)),
                    None => final(self)@ == old(self)@ && r is None,
                }
            }),
    {
        let (i, m) = match self.registry.match_tool(tool, args) {
            Some((i, m)) => (i, m),
            None => return None,
        };
        assert(self@.rules[i as int] == rule_view(self.registry.rules@[i as int]));
        let gate: PendingGate = PendingGate {
            gate_id: text_of(stamp.id.as_str()),
            request_id: text_of(request_id),
            session_id: text_of(session_id),
            branch: text_of(branch),
            rule_id: text_of(self.registry.rules[i].id()),
            kind: m.kind,
            tool: text_of(tool),
            params: m.params,
            note: m.note,
            original_args: args.copy(),
            by_check,
            created_at: stamp.now,
        };
        let event: Event = Event::GatePending {
            gate_id: text_of(gate.gate_id.as_str()),
            session_id: text_of(gate.session_id.as_str()),
            tool: text_of(gate.tool.as_str()),
            kind: text_of(gate.kind.as_str()),
            branch: text_of(gate.branch.as_str()),
            params: copy_params(&gate.params),
            note: opt_text(&gate.note),
            raw_args: gate.original_args.copy(),
        };
        self.pending.insert(stamp.id.as_str(), gate);
        Some(event)
    }

    /// Pending gates, oldest first.
    pub fn list(&self) -> (r: Vec<PendingGate>)
        requires
            self.wf(),
        ensures
            r@.map_values(|g: PendingGate| g@) == oldest_first(self@.pending),
    {
        let f = Ghost(|g: PendingGate| g@);
        let mut r: Vec<PendingGate> = Vec::new();
        let mut i: usize = 0;
        let ghost ps = self.pending@;
        assert(r@.map_values(f@) =~= oldest_first(ps.take(0)));
        while i < self.pending.entries.len()
            invariant
                i <= self.pending.entries@.len(),
                ps == self.pending@,
                f@ == (|g: PendingGate| g@),
                r@.map_values(f@) == oldest_first(ps.take(i as int)),
            decreases self.pending.entries@.len() - i,
        {
            let g: PendingGate = self.pending.entries[i].value.copy();
            assert(ps.take(i + 1).drop_last() =~= ps.take(i as int));
            assert(ps.take(i + 1).last().1 == g@);
            let ghost want = place_gate(oldest_first(ps.take(i as int)), g@);
            insert_by_age(&mut r, g);
            assert(r@.map_values(f@) =~= want);
            i += 1;
        }
        assert(ps.take(i as int) =~= ps);
        r
    }

    /// The engine call that answers a pending gate. Allow substitutes the edited params
    /// into the original tool args; deny sends the optional feedback back to the agent.
    /// It stays pending until [`GateManager::resolve`] takes it out.
    pub fn respond(
        &self,
        gate_id: &str,
        allow: bool,
        edited: &Vec<GateParam>,
        feedback: Option<String>,
    ) -> (r: Result<EngineCall, MaestroError>)
        requires
            self.wf(),
        ensures
            match t_get(self@.pending, gate_id@) {
                None => r matches Err(e) && is_invalid_data(e, "unknown gate: "@ + gate_id@),
                Some(g) => {
                    let rule = rule_with_id(self@.rules, g.rule_id, 0);
                    if allow && rule is None {
                        r matches Err(e) && is_invalid_data(
                            e,
                            "gate rule not registered: "@ + g.rule_id,
                        )
                    } else {
                        r matches Ok(c) && c@ == verdict_call(
                            g,
                            rule,
                            allow,
                            params_view(edited@),
                            opt_view(feedback),
                        )
                    }
                },
            },
    {
        let gate: &PendingGate = match self.pending.get(gate_id) {
            Some(g) => g,
            None => return Err(
                MaestroError::InvalidData { message: text_of("unknown gate: ").concat(gate_id) },
            ),
        };
        let request_id: String = text_of(gate.request_id.as_str());
        if allow {
            let rule: &R = match self.registry.rule(gate.rule_id.as_str()) {
                Some(rule) => rule,
                None => return Err(
                    MaestroError::InvalidData {
                        message: text_of("gate rule not registered: ").concat(
                            gate.rule_id.as_str(),
                        ),
                    },
                ),
            };
            let updated: Option<Json> = Some(rule.apply(&gate.original_args, edited));
            if gate.by_check {
                Ok(
                    EngineCall::RespondGateCheck {
                        request_id,
                        decision: text_of("allow"),
                        updated_args: updated,
                        message: None,
                    },
                )
            } else {
                Ok(
                    EngineCall::RespondPermission {
                        request_id,
                        allow: true,
                        updated_args: updated,
                        message: None,
                    },
                )
            }
        } else if gate.by_check {
            Ok(
                EngineCall::RespondGateCheck {
                    request_id,
                    decision: text_of("deny"),
                    updated_args: None,
                    message: feedback,
                },
            )
        } else {
            Ok(
                EngineCall::RespondPermission {
                    request_id,
                    allow: false,
                    updated_args: None,
                    message: feedback,
                },
            )
        }
    }

    /// Take a gate out once the engine accepted its answer; the event to publish says how
    /// it ended.
    pub fn resolve(&mut self, gate_id: &str, allow: bool) -> (r: Event)
        requires
            old(self).wf(),
        ensures
            final(self).wf(),
            final(self)@ == (GatesV {
                rules: old(self)@.rules,
                pending: t_del(old(self)@.pending, gate_id@),
            }),
            r@ == (EventV::GateResolved {
                gate_id: gate_id@,
                reason: if allow {
                    "allowed"@
                } else {
                    "denied"@
                },
            }),
    {
        self.pending.remove(gate_id);
        Event::GateResolved {
            gate_id: text_of(gate_id),
            reason: if allow {
                text_of("allowed")
            } else {
                text_of("denied")
            },
        }
    }

    /// Drop every gate belonging to `session_id`. Called when a session closes, crashes or
    /// is swept at startup: its request is already resolved or gone, so the dialog must not
    /// keep blocking the user with a decision that can no longer take effect.
    pub fn cancel_for_session(&mut self, session_id: &str, reason: &str) -> (r: Vec<Event>)
        requires
            old(self).wf(),
        ensures
            final(self).wf(),
            final(self)@ == cancelled(old(self)@, session_id@),
            event_views(r@) == resolved_events(
                gates_of(old(self)@.pending, session_id@),
                reason@,
            ),
    {
        let ghost ps = self.pending@;
        let ghost rules = self.registry@;
        let mut rest: Table<PendingGate> = Table::new();
        std::mem::swap(&mut self.pending, &mut rest);
        let mut events: Vec<Event> = Vec::new();
        let ghost mut n: int = 0;
        assert(ps.take(0) =~= seq![]);
        assert(event_views(events@) =~= resolved_events(gates_of(ps.take(0), session_id@), reason@));
        assert(self.pending@ =~= gates_not_of(ps.take(0), session_id@));
        while rest.entries.len() > 0
            invariant
                0 <= n <= ps.len(),
                t_unique(ps),
                self.registry@ == rules,
                rest@ == ps.subrange(n, ps.len() as int),
                self.pending@ == gates_not_of(ps.take(n), session_id@),
                event_views(events@) == resolved_events(
                    gates_of(ps.take(n), session_id@),
                    reason@,
                ),
            decreases rest.entries@.len(),
        {
            let ghost before = rest@;
            assert(before.len() == rest.entries@.len());
            let e: crate::table::Entry<PendingGate> = rest.entries.remove(0);
            assert(before[0] == (e.key@, e.value@));
            assert(rest@ =~= before.subrange(1, before.len() as int));
            assert(before.subrange(1, before.len() as int) =~= ps.subrange(
                n + 1,
                ps.len() as int,
            ));
            assert(ps.take(n + 1).drop_last() =~= ps.take(n));
            assert(ps.take(n + 1).last() == (e.key@, e.value@));
            if same_text(e.value.session_id.as_str(), session_id) {
                let ghost done = event_views(events@);
                let event: Event = Event::GateResolved { gate_id: e.key, reason: text_of(reason) };
                events.push(event);
                assert(event_views(events@) =~= done.push(event@));
                assert(event_views(events@) =~= resolved_events(
                    gates_of(ps.take(n + 1), session_id@),
                    reason@,
                ));
            } else {
                let ghost kept = self.pending@;
                self.pending.entries.push(e);
                assert(self.pending@ =~= kept.push((e.key@, e.value@)));
            }
            proof {
                n = n + 1;
            }
        }
        proof {
            assert(rest@.len() == 0);
            assert(ps.take(n) =~= ps);
            lemma_gates_not_of(ps, session_id@);
        }
        events
    }
}

fn insert_by_age(v: &mut Vec<PendingGate>, g: PendingGate)
    ensures
        final(v)@.map_values(|x: PendingGate| x@) == place_gate(
            old(v)@.map_values(|x: PendingGate| x@),
            g@,
        ),
    decreases old(v)@.len(),
{
    let f = Ghost(|x: PendingGate| x@);
    if v.len() == 0 || v[v.len() - 1].created_at <= g.created_at {
        proof {
            if v@.len() > 0 {
                assert(v@.map_values(f@).last() == v@.last()@);
            }
        }
        v.push(g);
        assert(v@.map_values(f@) =~= old(v)@.map_values(f@).push(g@));
    } else {
        assert(v@.map_values(f@).last() == v@.last()@);
        let last: PendingGate = v.pop().unwrap();
        assert(v@.map_values(f@) =~= old(v)@.map_values(f@).drop_last());
        insert_by_age(v, g);
        let ghost done = v@.map_values(f@);
        v.push(last);
        assert(v@.map_values(f@) =~= done.push(last@));
    }
}

} // verus!
