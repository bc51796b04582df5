//! Which rule a call is held up by, what the pending gate says of it, and what the verdict
//! makes of it.
use crate::effects::EngineCallV;
use crate::gate::rules::{
    command_in, GateMatchV, GateParamV, GateRule, GhPrCreateRule, GitCommitRule, GitPushRule,
};
use crate::gate::{
    best_match, builtin_rules, cancelled, gate_for, gates_not_of, gates_of, pending_event,
    resolved_events, rule_view, rule_with_id, verdict_call, GatesV, PendingGateV, Rule, RuleV,
    ToolCallV,
};
use crate::bus::EventV;
use crate::json::{member, JsonV};
use vstd::prelude::*;

verus! {

/// The rule that holds a call up is the one with the most to edit; of two with as much, the
/// one that was registered first.
pub proof fn the_rule_with_most_to_edit_wins(
    rules: Seq<RuleV>,
    tool: Seq<char>,
    args: JsonV,
    n: int,
    k: int,
)
    requires
        0 <= k < n <= rules.len(),
        (rules[k].match_of)(tool, args) is Some,
    ensures
        best_match(rules, tool, args, n) is Some,
        ({
            let (i, m) = best_match(rules, tool, args, n)->0;
            let other = (rules[k].match_of)(tool, args)->0;
            &&& 0 <= i < n
            &&& (rules[i].match_of)(tool, args) == Some(m)
            &&& m.params.len() >= other.params.len()
            &&& k < i ==> m.params.len() > other.params.len()
        }),
    decreases n,
{
    if k < n - 1 {
        the_rule_with_most_to_edit_wins(rules, tool, args, n - 1, k);
    } else {
        crate::gate::best_match_is_a_match(rules, tool, args, n - 1);
    }
    crate::gate::best_match_is_a_match(rules, tool, args, n);
    if n > 1 && k == n - 1 && best_match(rules, tool, args, n - 1) is Some {
        let (i, m) = best_match(rules, tool, args, n - 1)->0;
        assert(0 <= i < n - 1);
    }
}

proof fn lemma_ids()
    ensures
        "git_push"@ != "gh_pr_create"@,
        "git_push"@ != "git_commit"@,
        "gh_pr_create"@ != "git_commit"@,
{
    reveal_strlit("git_push");
    reveal_strlit("gh_pr_create");
    reveal_strlit("git_commit");
    assert("git_push"@.len() == 8 && "gh_pr_create"@.len() == 12 && "git_commit"@.len() == 10);
}

/// The rule that a pending gate names is the one that matched the call: its id leads back to
/// it and to no other.
pub proof fn a_gate_leads_back_to_its_rule(
    gate_commit: Option<Seq<char>>,
    call: ToolCallV,
    id: Seq<char>,
    now: i128,
)
    requires
        gate_for(builtin_rules(gate_commit), call, id, now) is Some,
    ensures
        ({
            let rules = builtin_rules(gate_commit);
            let g = gate_for(rules, call, id, now)->0;
            let rule = rule_with_id(rules, g.rule_id, 0);
            &&& rule is Some
            &&& (rule->0.match_of)(call.tool, call.args) == Some(
                GateMatchV { kind: g.kind, params: g.params, note: g.note },
            )
        }),
{
    let rules = builtin_rules(gate_commit);
    let n = rules.len() as int;
    crate::gate::best_match_is_a_match(rules, call.tool, call.args, n);
    let (i, m) = best_match(rules, call.tool, call.args, n)->0;
    lemma_ids();
    assert(rules[0] == rule_view(Rule::Push(GitPushRule)));
    assert(rules[1] == rule_view(Rule::PrCreate(GhPrCreateRule)));
    assert(rules[0].id == GitPushRule.id_text());
    assert(rules[1].id == GhPrCreateRule.id_text());
    if n == 3 {
        assert(rules[2] == rule_view(Rule::Commit(GitCommitRule)));
        assert(rules[2].id == GitCommitRule.id_text());
    }
    assert(GitPushRule.id_text() == "git_push"@);
    assert(GhPrCreateRule.id_text() == "gh_pr_create"@);
    assert(GitCommitRule.id_text() == "git_commit"@);
    assert(rule_with_id(rules, rules[i].id, 0) == Some(rules[i])) by {
        if i == 0 {
        } else if i == 1 {
            assert(rule_with_id(rules, rules[i].id, 1) == Some(rules[1]));
        } else {
            assert(rule_with_id(rules, rules[i].id, 2) == Some(rules[2]));
            assert(rule_with_id(rules, rules[i].id, 1) == Some(rules[2]));
        }
    }
}

/// A commit waits for approval exactly where the setting is `true`; a push and a new pull
/// request always do, and nothing else ever does.
pub proof fn what_waits_for_approval(
    gate_commit: Option<Seq<char>>,
    tool: Seq<char>,
    args: JsonV,
)
    ensures
        ({
            let rules = builtin_rules(gate_commit);
            best_match(rules, tool, args, rules.len() as int) is Some <==> {
                ||| GitPushRule.match_of(tool, args) is Some
                ||| GhPrCreateRule.match_of(tool, args) is Some
                ||| gate_commit == Some("true"@) && GitCommitRule.match_of(tool, args) is Some
            }
        }),
{
    let rules = builtin_rules(gate_commit);
    let n = rules.len() as int;
    assert(rules[0] == rule_view(Rule::Push(GitPushRule)));
    assert(rules[1] == rule_view(Rule::PrCreate(GhPrCreateRule)));
    if n == 3 {
        assert(rules[2] == rule_view(Rule::Commit(GitCommitRule)));
    }
    crate::gate::best_match_is_a_match(rules, tool, args, n);
    if GitPushRule.match_of(tool, args) is Some {
        crate::gate::a_matching_rule_gates(rules, tool, args, n, 0);
    }
    if GhPrCreateRule.match_of(tool, args) is Some {
        crate::gate::a_matching_rule_gates(rules, tool, args, n, 1);
    }
    if gate_commit == Some("true"@) && GitCommitRule.match_of(tool, args) is Some {
        crate::gate::a_matching_rule_gates(rules, tool, args, n, 2);
    }
}

/// A pending gate is the call that it holds up, with what the rule shows of it, and it is
/// announced as that.
pub proof fn a_gate_is_the_call_it_holds_up(
    rules: Seq<RuleV>,
    call: ToolCallV,
    id: Seq<char>,
    now: i128,
)
    ensures
        gate_for(rules, call, id, now) matches Some(g) ==> {
            &&& g.gate_id == id
            &&& g.request_id == call.request_id
            &&& g.session_id == call.session_id
            &&& g.branch == call.branch
            &&& g.tool == call.tool
            &&& g.original_args == call.args
            &&& g.by_check == call.by_check
            &&& g.created_at == now
            &&& pending_event(g) == (EventV::GatePending {
                gate_id: id,
                session_id: call.session_id,
                tool: call.tool,
                kind: g.kind,
                branch: call.branch,
                params: g.params,
                note: g.note,
                raw_args: call.args,
            })
        },
        gate_for(rules, call, id, now) is None <==> best_match(
            rules,
            call.tool,
            call.args,
            rules.len() as int,
        ) is None,
{
}

/// A denied call is denied to the one who asked, with the user's feedback and without
/// arguments; an allowed one runs with the edited values in place, and no message.
pub proof fn a_verdict_is_what_the_user_said(
    g: PendingGateV,
    rule: RuleV,
    edited: Seq<GateParamV>,
    feedback: Option<Seq<char>>,
)
    ensures
        verdict_call(g, Some(rule), false, edited, feedback) == (if g.by_check {
            EngineCallV::RespondGateCheck {
                request_id: g.request_id,
                decision: "deny"@,
                updated_args: None,
                message: feedback,
            }
        } else {
            EngineCallV::RespondPermission {
                request_id: g.request_id,
                allow: false,
                updated_args: None,
                message: feedback,
            }
        }),
        verdict_call(g, Some(rule), true, edited, feedback) == (if g.by_check {
            EngineCallV::RespondGateCheck {
                request_id: g.request_id,
                decision: "allow"@,
                updated_args: Some((rule.applied)(g.original_args, edited)),
                message: None,
            }
        } else {
            EngineCallV::RespondPermission {
                request_id: g.request_id,
                allow: true,
                updated_args: Some((rule.applied)(g.original_args, edited)),
                message: None,
            }
        }),
{
}

/// An approved call keeps every argument but the command, and a push keeps that too.
pub proof fn only_the_command_is_edited(
    rule: Rule,
    args: JsonV,
    edited: Seq<GateParamV>,
    key: Seq<char>,
)
    requires
        key != "command"@,
    ensures
        member(rule.applied(args, edited), key) == member(args, key),
        GitPushRule.applied(args, edited) == args,
        command_in(args) is None ==> rule.applied(args, edited) == args,
{
}

/// A session that ended takes its own gates with it and no other, and each is told once, in
/// order, with the reason.
pub proof fn only_the_gates_of_the_session_are_cancelled(
    g: GatesV,
    session_id: Seq<char>,
    reason: Seq<char>,
)
    ensures
        cancelled(g, session_id) == (GatesV {
            rules: g.rules,
            pending: g.pending.filter(
                |p: (Seq<char>, PendingGateV)| p.1.session_id != session_id,
            ),
        }),
        resolved_events(gates_of(g.pending, session_id), reason) == g.pending.filter(
            |p: (Seq<char>, PendingGateV)| p.1.session_id == session_id,
        ).map_values(
            |p: (Seq<char>, PendingGateV)| EventV::GateResolved { gate_id: p.0, reason },
        ),
{
    lemma_others(g.pending, session_id);
    lemma_own(g.pending, session_id);
    let own = g.pending.filter(|p: (Seq<char>, PendingGateV)| p.1.session_id == session_id);
    assert(resolved_events(gates_of(g.pending, session_id), reason) =~= own.map_values(
        |p: (Seq<char>, PendingGateV)| EventV::GateResolved { gate_id: p.0, reason },
    ));
}

proof fn lemma_others(pending: Seq<(Seq<char>, PendingGateV)>, session_id: Seq<char>)
    ensures
        gates_not_of(pending, session_id) == pending.filter(
            |p: (Seq<char>, PendingGateV)| p.1.session_id != session_id,
        ),
    decreases pending.len(),
{
    reveal(Seq::filter);
    if pending.len() > 0 {
        lemma_others(pending.drop_last(), session_id);
    }
}

proof fn lemma_own(pending: Seq<(Seq<char>, PendingGateV)>, session_id: Seq<char>)
    ensures
        gates_of(pending, session_id) == pending.filter(
            |p: (Seq<char>, PendingGateV)| p.1.session_id == session_id,
        ).map_values(|p: (Seq<char>, PendingGateV)| p.0),
    decreases pending.len(),
{
    reveal(Seq::filter);
    let f = |p: (Seq<char>, PendingGateV)| p.1.session_id == session_id;
    let h = |p: (Seq<char>, PendingGateV)| p.0;
    if pending.len() > 0 {
        lemma_own(pending.drop_last(), session_id);
        let d = pending.drop_last().filter(f);
        if f(pending.last()) {
            assert(pending.filter(f) == d.push(pending.last()));
            assert(d.push(pending.last()).map_values(h) =~= d.map_values(h).push(
                pending.last().0,
            ));
        }
    } else {
        assert(pending.filter(f).map_values(h) =~= seq![]);
    }
}

} // verus!
