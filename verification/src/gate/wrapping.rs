//! Laws of the rules: what a gate sees, and that a command wrapped in another one is still
//! seen.
use crate::clip::byte_len;
use crate::gate::editing::{lemma_program_by_text, lemma_runs_by_text, same_texts};
use crate::gate::rules::{
    after_slash, basename, before_program, command_in, grouping_token, inner_command,
    inner_commands, is_assignment, matching, name_char, nested_of, next_separator, next_text,
    program_of, runs, runs_anywhere, runs_inside, script_commands, segments, segments_from,
    shell_program, texts_of, wrapper_word, Gated, GateRule, GhPrCreateRule, GitCommitRule,
    GitPushRule, MAX_NESTING,
};
use crate::gate::shell::{plain_word, quoted, separator, shell_safe, tokens_of, TokenV};
use crate::gate::splicing::{
    a_flag_behind_a_word_disturbs_no_token, a_parenthesis_in_front_is_a_token,
    a_plain_word_is_closed, a_substitution_is_one_word, all_later,
    commands_in_a_row_keep_their_tokens, ends_at_a_backtick, ends_at_a_parenthesis, ends_in_a_word,
    flag_text, in_a_row, in_backticks, in_parentheses, is_operator, operator_text, put,
};
use crate::json::JsonV;
use crate::text::{is_white_space, lemma_next_char, trim, trim_end, trim_start};
use vstd::prelude::*;

verus! {

/// A command handed to a shell: `bash -c '<command>'`.
pub open spec fn wrapped(shell: Seq<char>, command: Seq<char>) -> Seq<char> {
    shell + " -c "@ + quoted(command)
}

/// The rules match exactly the calls that run what they gate, at the top or inside another
/// command, as deep as they look.
pub proof fn a_rule_gates_exactly_what_runs(args: JsonV)
    ensures
        GitPushRule.match_of("Bash"@, args) is Some <==> seen(Gated::Push, args),
        GhPrCreateRule.match_of("Bash"@, args) is Some <==> seen(Gated::PrCreate, args),
        GitCommitRule.match_of("Bash"@, args) is Some <==> seen(Gated::Commit, args),
{
    if command_in(args) is Some {
        let c = command_in(args)->0;
        lemma_matching(Gated::PrCreate, segments(tokens_of(c)));
        lemma_matching(Gated::Commit, segments(tokens_of(c)));
    }
}

/// Whether a call's command runs the operation, as deep as the rules look.
pub open spec fn seen(op: Gated, args: JsonV) -> bool {
    command_in(args) matches Some(c) && runs_anywhere(op, c, MAX_NESTING as nat)
}

pub proof fn lemma_matching(op: Gated, segs: Seq<Seq<TokenV>>)
    ensures
        matching(op, segs).len() > 0 ==> exists|i: int|
            0 <= i < segs.len() && runs(op, #[trigger] segs[i]),
    decreases segs.len(),
{
    if segs.len() > 0 {
        let d = segs.drop_last();
        lemma_matching(op, d);
        if matching(op, d).len() > 0 {
            let i = choose|i: int| 0 <= i < d.len() && runs(op, #[trigger] d[i]);
            assert(segs[i] == d[i]);
        }
        assert(segs.last() == segs[segs.len() - 1]);
    }
}

/// Values can be edited only where a command makes the gated call once, in plain sight: a
/// call inside another command is approved as it is or denied.
pub proof fn only_a_lone_call_is_editable(args: JsonV)
    ensures
        GitPushRule.match_of("Bash"@, args) matches Some(m) ==> m.params.len() == 0,
        GhPrCreateRule.match_of("Bash"@, args) matches Some(m) && m.params.len() > 0 ==> made_once(
            Gated::PrCreate,
            args,
        ),
        GitCommitRule.match_of("Bash"@, args) matches Some(m) && m.params.len() > 0 ==> made_once(
            Gated::Commit,
            args,
        ),
{
}

/// Whether a call's command runs the operation in one of its own segments and no other.
pub open spec fn made_once(op: Gated, args: JsonV) -> bool {
    command_in(args) matches Some(c) && matching(op, segments(tokens_of(c))).len() == 1
}

/// A closer look misses nothing that a shorter one sees.
pub proof fn looking_deeper_sees_no_less(op: Gated, command: Seq<char>, depth: nat)
    requires
        runs_anywhere(op, command, depth),
    ensures
        runs_anywhere(op, command, depth + 1),
    decreases depth,
{
    let segs = segments(tokens_of(command));
    if exists|i: int| 0 <= i < segs.len() && runs(op, #[trigger] segs[i]) {
    } else {
        let i = choose|i: int| 0 <= i < segs.len() && runs_inside(
            op,
            #[trigger] nested_of(segs[i]),
            (depth - 1) as nat,
        );
        let inner = nested_of(segs[i]);
        let k = choose|k: int| 0 <= k < inner.len() && runs_anywhere(
            op,
            #[trigger] inner[k],
            (depth - 1) as nat,
        );
        looking_deeper_sees_no_less(op, inner[k], (depth - 1) as nat);
        assert(runs_anywhere(op, inner[k], depth));
        assert(runs_inside(op, nested_of(segs[i]), depth));
    }
}

pub proof fn lemma_no_slash(s: Seq<char>, j: int)
    requires
        0 <= j <= s.len(),
        forall|k: int| 0 <= k < s.len() ==> #[trigger] s[k] != '/' && s[k] != '\\',
    ensures
        after_slash(s, j) == 0,
    decreases j,
{
    if j > 0 {
        lemma_no_slash(s, j - 1);
    }
}

/// A shell's name is a plain word, and the program of the segment that it begins.
proof fn lemma_shell(shell: Seq<char>)
    requires
        shell_program(shell),
    ensures
        plain_word(shell),
        basename(shell) == shell,
        !before_program(shell),
{
    reveal_strlit("sh");
    reveal_strlit("bash");
    reveal_strlit("zsh");
    reveal_strlit("dash");
    reveal_strlit("ksh");
    assert forall|k: int| 0 <= k < shell.len() implies shell_safe(#[trigger] shell[k]) && shell[k]
        != '/' && shell[k] != '\\' && shell[k] != '=' by {
        assert(shell[k] == 's' || shell[k] == 'h' || shell[k] == 'b' || shell[k] == 'a'
            || shell[k] == 'z' || shell[k] == 'd' || shell[k] == 'k');
    }
    lemma_no_slash(shell, shell.len() as int);
    assert(basename(shell) =~= shell);
    lemma_next_char(shell, '=', 0);
    // Shells end in `h`; no other word that may stand in front of a program does.
    assert(shell.last() == 'h');
    reveal_strlit("(");
    reveal_strlit(")");
    reveal_strlit("{");
    reveal_strlit("}");
    reveal_strlit("!");
    assert(!grouping_token(shell));
    reveal_strlit("command");
    reveal_strlit("env");
    reveal_strlit("time");
    reveal_strlit("nohup");
    reveal_strlit("exec");
    reveal_strlit("sudo");
    reveal_strlit("stdbuf");
    reveal_strlit("then");
    reveal_strlit("else");
    reveal_strlit("do");
    reveal_strlit("elif");
    assert(!wrapper_word(shell));
}

proof fn lemma_handed_to_a_shell(op: Gated, shell: Seq<char>, command: Seq<char>, depth: nat)
    requires
        shell_program(shell),
        runs_anywhere(op, command, depth),
    ensures
        runs_anywhere(op, wrapped(shell, command), depth + 1),
{
    reveal_strlit(" -c ");
    reveal_strlit("-c");
    lemma_shell(shell);
    a_plain_word_is_closed(shell);
    let s = shell;
    let n = s.len() as int;
    a_flag_behind_a_word_disturbs_no_token(s, 0, "-c"@, command);
    let t = put(s, n, n, flag_text("-c"@, command));
    assert(t =~= wrapped(shell, command));
    let ts = tokens_of(t);
    assert(ts.len() == 3);
    assert(segments(ts) =~= seq![ts]) by {
        assert(next_separator(ts, 3) == 3);
        assert(next_separator(ts, 2) == 3);
        assert(next_separator(ts, 1) == 3);
        assert(next_separator(ts, 0) == 3);
        assert(ts.subrange(0, 3) =~= ts);
    }
    assert(program_of(ts) == Some(0int));
    assert(next_text(ts, "-c"@, 1) == 1);
    assert(script_commands(ts, 0) == seq![command]);
    let inner = nested_of(ts);
    assert(inner[0] == command);
    assert(runs_anywhere(op, inner[0], depth));
    assert(runs_inside(op, nested_of(segments(ts)[0]), depth));
}

proof fn lemma_slash_bound(s: Seq<char>, j: int)
    requires
        0 <= j <= s.len(),
    ensures
        0 <= after_slash(s, j) <= j,
    decreases j,
{
    if j > 0 {
        lemma_slash_bound(s, j - 1);
    }
}

/// No word in `$(…)` or backticks is one that only stands in front of a program.
proof fn lemma_odd_word(t: Seq<char>)
    requires
        t.len() >= 2,
        t[0] == '`' && t.last() == '`' || t[0] == '$' && t[1] == '(' && t.last() == ')',
    ensures
        !before_program(t),
{
    lemma_next_char(t, '=', 0);
    if is_assignment(t) {
        assert(name_char(t[0]));
    }
    reveal_strlit("(");
    reveal_strlit(")");
    reveal_strlit("{");
    reveal_strlit("}");
    reveal_strlit("!");
    assert(!grouping_token(t));
    lemma_slash_bound(t, t.len() - 1);
    let b = basename(t);
    assert(b.last() == t.last());
    reveal_strlit("command");
    reveal_strlit("env");
    reveal_strlit("time");
    reveal_strlit("nohup");
    reveal_strlit("exec");
    reveal_strlit("sudo");
    reveal_strlit("stdbuf");
    reveal_strlit("then");
    reveal_strlit("else");
    reveal_strlit("do");
    reveal_strlit("elif");
    assert(!wrapper_word(b));
}

/// A text with no white space at its ends is trimmed.
pub proof fn lemma_not_blank(t: Seq<char>)
    requires
        t.len() > 0,
        !is_white_space(t[0]),
        !is_white_space(t.last()),
    ensures
        trim(t) == t,
{
    assert(trim_start(t) =~= t);
    assert(trim_end(t) =~= t);
}

/// A word that stands alone, `$(…)` or backticks around a command, hands that command on.
proof fn lemma_alone(op: Gated, t: Seq<char>, command: Seq<char>, depth: nat)
    requires
        t.len() >= 2,
        t[0] == '`' && t.last() == '`' || t[0] == '$' && t[1] == '(' && t.last() == ')',
        trim(t) == t,
        inner_command(t) == Some(command),
        tokens_of(t) == seq![
            TokenV { text: t, is_separator: false, start: 0, end: byte_len(t) as int },
        ],
        runs_anywhere(op, command, depth),
    ensures
        runs_anywhere(op, t, depth + 1),
{
    let ts = tokens_of(t);
    assert(segments(ts) =~= seq![ts]) by {
        assert(next_separator(ts, 1) == 1);
        assert(next_separator(ts, 0) == 1);
        assert(ts.subrange(0, 1) =~= ts);
    }
    lemma_odd_word(t);
    assert(program_of(ts) == Some(0int));
    assert(inner_commands(ts.drop_last()) =~= seq![]);
    assert(ts.last().text == t);
    assert(inner_commands(ts) =~= seq![command]);
    let inner = nested_of(ts);
    let k = inner.len() - 1;
    assert(inner[k] == command);
    assert(runs_inside(op, nested_of(segments(ts)[0]), depth));
}

/// A command that a gate sees is still seen one level down: handed to a shell, in `$(…)`, or
/// in backticks.
pub proof fn a_wrapped_command_is_still_seen(
    op: Gated,
    shell: Seq<char>,
    command: Seq<char>,
    depth: nat,
)
    requires
        runs_anywhere(op, command, depth),
    ensures
        shell_program(shell) ==> runs_anywhere(op, wrapped(shell, command), depth + 1),
        ends_at_a_backtick(command) ==> runs_anywhere(op, in_backticks(command), depth + 1),
        ends_at_a_parenthesis(command) ==> runs_anywhere(
            op,
            in_parentheses(command),
            depth + 1,
        ),
{
    if shell_program(shell) {
        lemma_handed_to_a_shell(op, shell, command, depth);
    }
    a_substitution_is_one_word(command);
    let n = command.len() as int;
    if ends_at_a_backtick(command) {
        let t = in_backticks(command);
        lemma_not_blank(t);
        assert(t.subrange(1, n + 1) =~= command);
        lemma_alone(op, t, command, depth);
    }
    if ends_at_a_parenthesis(command) {
        let t = in_parentheses(command);
        lemma_not_blank(t);
        assert(t.subrange(2, n + 2) =~= command);
        lemma_alone(op, t, command, depth);
    }
}

// ---------------------------------------------------------------------------
// Commands in a row
// ---------------------------------------------------------------------------

pub proof fn lemma_separator_bound(ts: Seq<TokenV>, i: int)
    requires
        0 <= i <= ts.len(),
    ensures
        i <= next_separator(ts, i) <= ts.len(),
        forall|x: int| i <= x < next_separator(ts, i) ==> !(#[trigger] ts[x]).is_separator,
        next_separator(ts, i) < ts.len() ==> ts[next_separator(ts, i)].is_separator,
    decreases ts.len() - i,
{
    if i < ts.len() && !ts[i].is_separator {
        lemma_separator_bound(ts, i + 1);
    }
}

/// The segments of two runs of tokens with a separator between them.
proof fn lemma_segments_in_a_row(x: Seq<TokenV>, sep: TokenV, y: Seq<TokenV>, i: int)
    requires
        0 <= i <= x.len(),
        sep.is_separator,
    ensures
        segments_from(x + seq![sep] + y, i) == segments_from(x, i) + segments_from(y, 0),
    decreases x.len() - i,
{
    let ts = x + seq![sep] + y;
    let j = next_separator(x, i);
    lemma_separator_bound(x, i);
    lemma_next_in_front(x, sep, y, i);
    assert(ts.subrange(i, j) =~= x.subrange(i, j));
    if j < x.len() {
        lemma_segments_in_a_row(x, sep, y, j + 1);
    } else {
        lemma_segments_behind(ts, y, x.len() as int + 1, 0);
        assert(segments_from(x, i) + segments_from(y, 0) =~= segments_from(ts, i));
    }
    assert(segments_from(ts, i) =~= segments_from(x, i) + segments_from(y, 0));
}

proof fn lemma_next_in_front(x: Seq<TokenV>, sep: TokenV, y: Seq<TokenV>, i: int)
    requires
        0 <= i <= x.len(),
        sep.is_separator,
    ensures
        next_separator(x + seq![sep] + y, i) == next_separator(x, i),
    decreases x.len() - i,
{
    let ts = x + seq![sep] + y;
    if i < x.len() {
        assert(ts[i] == x[i]);
        if !x[i].is_separator {
            lemma_next_in_front(x, sep, y, i + 1);
        }
    } else {
        assert(ts[i] == sep);
    }
}

/// The segments of what stands at the end of a run of tokens.
pub proof fn lemma_segments_behind(ts: Seq<TokenV>, y: Seq<TokenV>, n: int, i: int)
    requires
        0 <= i <= y.len(),
        0 <= n,
        ts.len() == n + y.len(),
        forall|k: int| 0 <= k < y.len() ==> #[trigger] y[k] == ts[n + k],
    ensures
        segments_from(ts, n + i) == segments_from(y, i),
        next_separator(ts, n + i) == n + next_separator(y, i),
    decreases y.len() - i,
{
    lemma_next_behind(ts, y, n, i);
    lemma_separator_bound(y, i);
    let j = next_separator(y, i);
    assert(ts.subrange(n + i, n + j) =~= y.subrange(i, j)) by {
        assert forall|k: int| 0 <= k < j - i implies ts.subrange(n + i, n + j)[k] == y.subrange(
            i,
            j,
        )[k] by {
            assert(y[i + k] == ts[n + (i + k)]);
        }
    }
    if j < y.len() {
        lemma_segments_behind(ts, y, n, j + 1);
    }
}

pub proof fn lemma_next_behind(ts: Seq<TokenV>, y: Seq<TokenV>, n: int, i: int)
    requires
        0 <= i <= y.len(),
        0 <= n,
        ts.len() == n + y.len(),
        forall|k: int| 0 <= k < y.len() ==> #[trigger] y[k] == ts[n + k],
    ensures
        next_separator(ts, n + i) == n + next_separator(y, i),
    decreases y.len() - i,
{
    if i < y.len() {
        assert(y[i] == ts[n + i]);
        if !y[i].is_separator {
            lemma_next_behind(ts, y, n, i + 1);
        }
    }
}

/// Moved tokens make moved segments.
proof fn lemma_segments_later(ts: Seq<TokenV>, d: int, i: int)
    requires
        0 <= i <= ts.len(),
    ensures
        next_separator(all_later(ts, d), i) == next_separator(ts, i),
        segments_from(all_later(ts, d), i) == segments_from(ts, i).map_values(
            |seg: Seq<TokenV>| all_later(seg, d),
        ),
    decreases ts.len() - i,
{
    let us = all_later(ts, d);
    lemma_next_later(ts, d, i);
    lemma_separator_bound(ts, i);
    let j = next_separator(ts, i);
    if j < ts.len() {
        lemma_segments_later(ts, d, j + 1);
    }
    assert(us.subrange(i, j) =~= all_later(ts.subrange(i, j), d));
    assert(segments_from(us, i) =~= segments_from(ts, i).map_values(
        |seg: Seq<TokenV>| all_later(seg, d),
    ));
}

proof fn lemma_next_later(ts: Seq<TokenV>, d: int, i: int)
    requires
        0 <= i <= ts.len(),
    ensures
        next_separator(all_later(ts, d), i) == next_separator(ts, i),
    decreases ts.len() - i,
{
    if i < ts.len() && !ts[i].is_separator {
        lemma_next_later(ts, d, i + 1);
    }
}

/// What a segment hands to other commands depends on its words alone.
pub proof fn lemma_nested_by_text(a: Seq<TokenV>, b: Seq<TokenV>)
    requires
        same_texts(a, b),
    ensures
        nested_of(a) == nested_of(b),
{
    lemma_program_by_text(a, b, 0);
    lemma_inner_by_text(a, b);
    match program_of(a) {
        Some(p) => {
            assert(a[p].text == b[p].text);
            lemma_next_text_by_text(a, b, "-c"@, p + 1);
            let c = next_text(a, "-c"@, p + 1);
            if 0 <= c + 1 < a.len() {
                assert(a[c + 1].text == b[c + 1].text);
            }
            lemma_next_text_bound(a, "-c"@, p + 1);
            assert(texts_of(a.subrange(p + 1, a.len() as int)) =~= texts_of(
                b.subrange(p + 1, b.len() as int),
            ));
        },
        None => {},
    }
}

proof fn lemma_next_text_bound(a: Seq<TokenV>, w: Seq<char>, i: int)
    requires
        0 <= i,
    ensures
        next_text(a, w, i) >= 0,
    decreases a.len() - i,
{
    if i < a.len() && a[i].text != w {
        lemma_next_text_bound(a, w, i + 1);
    }
}

proof fn lemma_next_text_by_text(a: Seq<TokenV>, b: Seq<TokenV>, w: Seq<char>, i: int)
    requires
        same_texts(a, b),
        0 <= i,
    ensures
        next_text(a, w, i) == next_text(b, w, i),
    decreases a.len() - i,
{
    if i < a.len() {
        assert(a[i].text == b[i].text);
        if a[i].text != w {
            lemma_next_text_by_text(a, b, w, i + 1);
        }
    }
}

proof fn lemma_inner_by_text(a: Seq<TokenV>, b: Seq<TokenV>)
    requires
        same_texts(a, b),
    ensures
        inner_commands(a) == inner_commands(b),
    decreases a.len(),
{
    if a.len() > 0 {
        let x = a.drop_last();
        let y = b.drop_last();
        assert forall|i: int| 0 <= i < x.len() implies (#[trigger] x[i]).text == y[i].text by {
            assert(a[i].text == b[i].text);
        }
        lemma_inner_by_text(x, y);
        assert(a[a.len() - 1].text == b[b.len() - 1].text);
    }
}

/// Whether one of the segments runs the operation, at the top or inside.
pub open spec fn some_runs(op: Gated, segs: Seq<Seq<TokenV>>, depth: nat) -> bool {
    ||| exists|i: int| 0 <= i < segs.len() && runs(op, #[trigger] segs[i])
    ||| depth > 0 && exists|i: int| 0 <= i < segs.len() && runs_inside(
        op,
        #[trigger] nested_of(segs[i]),
        (depth - 1) as nat,
    )
}

proof fn lemma_some_runs_later(op: Gated, segs: Seq<Seq<TokenV>>, depth: nat, d: int)
    ensures
        some_runs(op, segs.map_values(|seg: Seq<TokenV>| all_later(seg, d)), depth) == some_runs(
            op,
            segs,
            depth,
        ),
{
    let later = segs.map_values(|seg: Seq<TokenV>| all_later(seg, d));
    assert forall|i: int| 0 <= i < segs.len() implies runs(op, #[trigger] later[i]) == runs(
        op,
        segs[i],
    ) && nested_of(later[i]) == nested_of(segs[i]) by {
        assert(same_texts(segs[i], later[i]));
        lemma_runs_by_text(op, segs[i], later[i]);
        lemma_nested_by_text(segs[i], later[i]);
    }
    if some_runs(op, segs, depth) {
        if exists|i: int| 0 <= i < segs.len() && runs(op, #[trigger] segs[i]) {
            let i = choose|i: int| 0 <= i < segs.len() && runs(op, #[trigger] segs[i]);
            assert(runs(op, later[i]));
        } else {
            let i = choose|i: int| 0 <= i < segs.len() && runs_inside(
                op,
                #[trigger] nested_of(segs[i]),
                (depth - 1) as nat,
            );
            assert(runs_inside(op, nested_of(later[i]), (depth - 1) as nat));
        }
    }
    if some_runs(op, later, depth) {
        if exists|i: int| 0 <= i < later.len() && runs(op, #[trigger] later[i]) {
            let i = choose|i: int| 0 <= i < later.len() && runs(op, #[trigger] later[i]);
            assert(runs(op, segs[i]));
        } else {
            let i = choose|i: int| 0 <= i < later.len() && runs_inside(
                op,
                #[trigger] nested_of(later[i]),
                (depth - 1) as nat,
            );
            assert(runs_inside(op, nested_of(segs[i]), (depth - 1) as nat));
        }
    }
}

pub proof fn lemma_some_runs_either(
    op: Gated,
    x: Seq<Seq<TokenV>>,
    y: Seq<Seq<TokenV>>,
    depth: nat,
)
    ensures
        some_runs(op, x + y, depth) == (some_runs(op, x, depth) || some_runs(op, y, depth)),
{
    let z = x + y;
    let below = (depth - 1) as nat;
    if some_runs(op, x, depth) {
        if exists|i: int| 0 <= i < x.len() && runs(op, #[trigger] x[i]) {
            let i = choose|i: int| 0 <= i < x.len() && runs(op, #[trigger] x[i]);
            assert(runs(op, z[i]));
        } else {
            let i = choose|i: int| 0 <= i < x.len() && runs_inside(
                op,
                #[trigger] nested_of(x[i]),
                below,
            );
            assert(runs_inside(op, nested_of(z[i]), below));
        }
    }
    if some_runs(op, y, depth) {
        if exists|i: int| 0 <= i < y.len() && runs(op, #[trigger] y[i]) {
            let i = choose|i: int| 0 <= i < y.len() && runs(op, #[trigger] y[i]);
            assert(runs(op, z[x.len() + i]));
        } else {
            let i = choose|i: int| 0 <= i < y.len() && runs_inside(
                op,
                #[trigger] nested_of(y[i]),
                below,
            );
            assert(runs_inside(op, nested_of(z[x.len() + i]), below));
        }
    }
    if some_runs(op, z, depth) {
        if exists|i: int| 0 <= i < z.len() && runs(op, #[trigger] z[i]) {
            let i = choose|i: int| 0 <= i < z.len() && runs(op, #[trigger] z[i]);
            if i < x.len() {
                assert(runs(op, x[i]));
            } else {
                assert(runs(op, y[i - x.len()]));
            }
        } else {
            let i = choose|i: int| 0 <= i < z.len() && runs_inside(
                op,
                #[trigger] nested_of(z[i]),
                below,
            );
            if i < x.len() {
                assert(runs_inside(op, nested_of(x[i]), below));
            } else {
                assert(runs_inside(op, nested_of(y[i - x.len()]), below));
            }
        }
    }
}

/// Of two commands in a row a gate sees what it sees of either: nothing can be hidden in
/// front of another command or behind it. The first one ends in a word, with nothing left
/// open.
pub proof fn commands_in_a_row_are_both_seen(
    op: Gated,
    a: Seq<char>,
    o: Seq<char>,
    b: Seq<char>,
    depth: nat,
)
    requires
        ends_in_a_word(a),
        is_operator(o),
    ensures
        runs_anywhere(op, in_a_row(a, o, b), depth) <==> runs_anywhere(op, a, depth)
            || runs_anywhere(op, b, depth),
{
    commands_in_a_row_keep_their_tokens(a, o, b);
    let n = byte_len(a) as int;
    let d = n + byte_len(o) + 2;
    let sep = separator(operator_text(o), n + 1, n + 1 + byte_len(o));
    let x = tokens_of(a);
    let y = all_later(tokens_of(b), d);
    lemma_segments_in_a_row(x, sep, y, 0);
    lemma_segments_later(tokens_of(b), d, 0);
    lemma_some_runs_either(op, segments(x), segments(y), depth);
    lemma_some_runs_later(op, segments(tokens_of(b)), depth, d);
    assert(runs_anywhere(op, in_a_row(a, o, b), depth) == some_runs(
        op,
        segments(tokens_of(in_a_row(a, o, b))),
        depth,
    ));
    assert(runs_anywhere(op, a, depth) == some_runs(op, segments(x), depth));
    assert(runs_anywhere(op, b, depth) == some_runs(op, segments(tokens_of(b)), depth));
}

/// Parentheses around a command hide nothing.
pub proof fn parentheses_hide_nothing(op: Gated, c: Seq<char>, depth: nat)
    requires
        ends_in_a_word(c),
    ensures
        runs_anywhere(op, in_a_row(seq!['(', ' '] + c, seq![')'], seq![]), depth)
            <==> runs_anywhere(op, c, depth),
{
    let open = seq!['(', ' '] + c;
    a_parenthesis_in_front_is_a_token(c);
    commands_in_a_row_are_both_seen(op, open, seq![')'], seq![], depth);
    let none = Seq::<char>::empty();
    assert(tokens_of(none) =~= seq![]);
    let sep = separator(seq!['('], 0, 1);
    let x = Seq::<TokenV>::empty();
    let y = all_later(tokens_of(c), 2);
    assert(tokens_of(open) =~= x + seq![sep] + y);
    lemma_segments_in_a_row(x, sep, y, 0);
    lemma_segments_later(tokens_of(c), 2, 0);
    lemma_some_runs_either(op, segments(x), segments(y), depth);
    lemma_some_runs_later(op, segments(tokens_of(c)), depth, 2);
    assert(segments(x) =~= seq![]);
    assert(!some_runs(op, segments(x), depth));
    assert(runs_anywhere(op, none, depth) == some_runs(op, segments(tokens_of(none)), depth));
    assert(runs_anywhere(op, open, depth) == some_runs(op, segments(tokens_of(open)), depth));
    assert(runs_anywhere(op, c, depth) == some_runs(op, segments(tokens_of(c)), depth));
}

} // verus!
