//! What a gate sees of a command, word by word: no option, prefix, path or shell in front of
//! a gated call hides it, and what merely looks like one is let through.
use crate::gate::editing::{lemma_runs_by_text, same_texts};
use crate::gate::rules::{
    after_slash, basename, before_program, git_runs, git_value_flag, grouping_token, inner_command,
    inner_commands, is_assignment, is_flag, name_char, nested_of, next_separator, next_text,
    next_word, program_from, program_of, runs, runs_anywhere, runs_inside, script_commands,
    segments, segments_from, shell_program, subcommand_from, wrapper_word, GateMatchV, Gated,
    GateRule, GhPrCreateRule, GitCommitRule, GitPushRule, MAX_NESTING,
};
use crate::gate::shell::{plain_word, quoted, shell_safe, tokens_of, TokenV};
use crate::gate::splicing::{a_quoted_value_is_one_word, a_word_in_front_is_a_token};
use crate::gate::wrapping::{
    a_rule_gates_exactly_what_runs, a_wrapped_command_is_still_seen, lemma_nested_by_text,
    lemma_next_behind, lemma_no_slash, lemma_not_blank, lemma_segments_behind,
    lemma_separator_bound, lemma_some_runs_either, some_runs, wrapped,
};
use crate::json::{member, text_in, JsonV};
use crate::text::{lemma_next_char, next_char};
use vstd::prelude::*;

verus! {

/// Words, each quoted where it needs to be, in front of a command.
pub open spec fn spelled(ws: Seq<Seq<char>>, w: Seq<char>) -> Seq<char>
    decreases ws.len(),
{
    if ws.len() == 0 {
        w
    } else {
        quoted(ws[0]) + seq![' '] + spelled(ws.drop_first(), w)
    }
}

pub open spec fn as_tokens(ws: Seq<Seq<char>>) -> Seq<TokenV> {
    ws.map_values(|t: Seq<char>| TokenV { text: t, is_separator: false, start: 0, end: 0 })
}

/// Whether two runs of tokens differ in nothing but where they stand.
pub open spec fn alike(a: Seq<TokenV>, b: Seq<TokenV>) -> bool {
    &&& a.len() == b.len()
    &&& forall|i: int|
        0 <= i < a.len() ==> (#[trigger] a[i]).text == b[i].text && a[i].is_separator
            == b[i].is_separator
}

pub proof fn lemma_spelled(ws: Seq<Seq<char>>, w: Seq<char>)
    ensures
        alike(tokens_of(spelled(ws, w)), as_tokens(ws) + tokens_of(w)),
    decreases ws.len(),
{
    if ws.len() > 0 {
        let r = spelled(ws.drop_first(), w);
        lemma_spelled(ws.drop_first(), w);
        a_word_in_front_is_a_token(ws[0], r);
        let ts = tokens_of(spelled(ws, w));
        let us = as_tokens(ws) + tokens_of(w);
        let rs = tokens_of(r);
        let vs = as_tokens(ws.drop_first()) + tokens_of(w);
        assert forall|i: int| 0 <= i < ts.len() implies (#[trigger] ts[i]).text == us[i].text
            && ts[i].is_separator == us[i].is_separator by {
            if i > 0 {
                assert(rs[i - 1].text == vs[i - 1].text);
                assert(us[i].text == vs[i - 1].text && us[i].is_separator
                    == vs[i - 1].is_separator);
            }
        }
    }
}

proof fn lemma_alike_segments(a: Seq<TokenV>, b: Seq<TokenV>, i: int)
    requires
        alike(a, b),
        0 <= i <= a.len(),
    ensures
        next_separator(a, i) == next_separator(b, i),
        segments_from(a, i).len() == segments_from(b, i).len(),
        forall|k: int|
            0 <= k < segments_from(a, i).len() ==> same_texts(
                #[trigger] segments_from(a, i)[k],
                segments_from(b, i)[k],
            ),
    decreases a.len() - i,
{
    lemma_alike_next(a, b, i);
    lemma_separator_bound(a, i);
    let j = next_separator(a, i);
    if j < a.len() {
        lemma_alike_segments(a, b, j + 1);
    }
    let x = a.subrange(i, j);
    let y = b.subrange(i, j);
    assert forall|k: int| 0 <= k < x.len() implies (#[trigger] x[k]).text == y[k].text by {
        assert(a[i + k].text == b[i + k].text);
    }
    assert(same_texts(x, y));
}

proof fn lemma_alike_next(a: Seq<TokenV>, b: Seq<TokenV>, i: int)
    requires
        alike(a, b),
        0 <= i <= a.len(),
    ensures
        next_separator(a, i) == next_separator(b, i),
    decreases a.len() - i,
{
    if i < a.len() {
        assert(a[i].is_separator == b[i].is_separator);
        if !a[i].is_separator {
            lemma_alike_next(a, b, i + 1);
        }
    }
}

proof fn lemma_some_runs_implied(
    op: Gated,
    xs: Seq<Seq<TokenV>>,
    ys: Seq<Seq<TokenV>>,
    depth: nat,
)
    requires
        xs.len() == ys.len(),
        forall|k: int| 0 <= k < xs.len() ==> same_texts(#[trigger] xs[k], ys[k]),
        some_runs(op, xs, depth),
    ensures
        some_runs(op, ys, depth),
{
    let below = (depth - 1) as nat;
    if exists|i: int| 0 <= i < xs.len() && runs(op, #[trigger] xs[i]) {
        let i = choose|i: int| 0 <= i < xs.len() && runs(op, #[trigger] xs[i]);
        lemma_runs_by_text(op, xs[i], ys[i]);
        assert(runs(op, ys[i]));
    } else {
        let i = choose|i: int| 0 <= i < xs.len() && runs_inside(
            op,
            #[trigger] nested_of(xs[i]),
            below,
        );
        lemma_nested_by_text(xs[i], ys[i]);
        assert(runs_inside(op, nested_of(ys[i]), below));
    }
}

proof fn lemma_alike_runs(op: Gated, a: Seq<TokenV>, b: Seq<TokenV>, depth: nat)
    requires
        alike(a, b),
        some_runs(op, segments(a), depth),
    ensures
        some_runs(op, segments(b), depth),
{
    lemma_alike_segments(a, b, 0);
    lemma_some_runs_implied(op, segments(a), segments(b), depth);
}

/// The words of a command up to its first separator.
pub open spec fn first_part(w: Seq<char>) -> Seq<TokenV> {
    tokens_of(w).take(next_separator(tokens_of(w), 0))
}

/// The segments behind the first separator.
spec fn other_parts(w: Seq<char>) -> Seq<Seq<TokenV>> {
    let x = tokens_of(w);
    let j = next_separator(x, 0);
    if j < x.len() {
        segments_from(x, j + 1)
    } else {
        seq![]
    }
}

proof fn lemma_no_separator(ts: Seq<TokenV>, n: int, i: int)
    requires
        0 <= i <= n <= ts.len(),
        forall|k: int| 0 <= k < n ==> !(#[trigger] ts[k]).is_separator,
    ensures
        next_separator(ts, i) == next_separator(ts, n),
    decreases n - i,
{
    if i < n {
        lemma_no_separator(ts, n, i + 1);
    }
}

/// The segments of a command with words in front: those words belong to the first one.
proof fn lemma_front_segments(ws: Seq<Seq<char>>, w: Seq<char>)
    requires
        ws.len() > 0,
    ensures
        segments(as_tokens(ws) + tokens_of(w)) == seq![as_tokens(ws) + first_part(w)]
            + other_parts(w),
{
    let x = tokens_of(w);
    let n = ws.len() as int;
    let ts = as_tokens(ws) + x;
    let j = next_separator(x, 0);
    lemma_separator_bound(x, 0);
    assert forall|k: int| 0 <= k < n implies !(#[trigger] ts[k]).is_separator by {}
    lemma_no_separator(ts, n, 0);
    lemma_next_behind(ts, x, n, 0);
    assert(next_separator(ts, 0) == n + j);
    assert(ts.subrange(0, n + j) =~= as_tokens(ws) + first_part(w));
    if j < x.len() {
        lemma_segments_behind(ts, x, n, j + 1);
        assert(segments_from(ts, n + j + 1) == other_parts(w));
    }
    assert(segments(ts) =~= seq![as_tokens(ws) + first_part(w)] + other_parts(w));
}

/// What is seen of a command with words in front is what is seen of its first segment, those
/// words included, and of the others.
proof fn lemma_front(op: Gated, ws: Seq<Seq<char>>, w: Seq<char>, depth: nat)
    requires
        ws.len() > 0,
    ensures
        runs_anywhere(op, spelled(ws, w), depth) <==> some_runs(
            op,
            seq![as_tokens(ws) + first_part(w)],
            depth,
        ) || some_runs(op, other_parts(w), depth),
{
    let c = spelled(ws, w);
    let a = tokens_of(c);
    let b = as_tokens(ws) + tokens_of(w);
    lemma_spelled(ws, w);
    assert(alike(b, a));
    assert(runs_anywhere(op, c, depth) == some_runs(op, segments(a), depth));
    if some_runs(op, segments(a), depth) {
        lemma_alike_runs(op, a, b, depth);
    }
    if some_runs(op, segments(b), depth) {
        lemma_alike_runs(op, b, a, depth);
    }
    lemma_front_segments(ws, w);
    lemma_some_runs_either(op, seq![as_tokens(ws) + first_part(w)], other_parts(w), depth);
}

/// Where a first segment that runs the operation goes over into one that does, and what it
/// hands to other commands is handed on, everything that was seen is still seen.
proof fn lemma_still_seen(
    op: Gated,
    p: Seq<Seq<char>>,
    q: Seq<Seq<char>>,
    w: Seq<char>,
    depth: nat,
)
    requires
        p.len() > 0,
        q.len() > 0,
        runs(op, as_tokens(p) + first_part(w)) ==> runs(op, as_tokens(q) + first_part(w)),
        forall|c: Seq<char>|
            nested_of(as_tokens(p) + first_part(w)).contains(c) ==> #[trigger] nested_of(
                as_tokens(q) + first_part(w),
            ).contains(c),
        runs_anywhere(op, spelled(p, w), depth),
    ensures
        runs_anywhere(op, spelled(q, w), depth),
{
    lemma_front(op, p, w, depth);
    lemma_front(op, q, w, depth);
    let a = as_tokens(p) + first_part(w);
    let b = as_tokens(q) + first_part(w);
    if some_runs(op, seq![a], depth) {
        let below = (depth - 1) as nat;
        if runs(op, a) {
            assert(runs(op, seq![b][0]));
        } else {
            assert(!(exists|i: int| 0 <= i < seq![a].len() && runs(op, #[trigger] seq![a][i])));
            let i = choose|i: int| 0 <= i < seq![a].len() && runs_inside(
                op,
                #[trigger] nested_of(seq![a][i]),
                below,
            );
            let inner = nested_of(a);
            let k = choose|k: int| 0 <= k < inner.len() && runs_anywhere(
                op,
                #[trigger] inner[k],
                below,
            );
            assert(inner.contains(inner[k]));
            let m = nested_of(b);
            assert(m.contains(inner[k]));
            let l = choose|l: int| 0 <= l < m.len() && m[l] == inner[k];
            assert(runs_anywhere(op, m[l], below));
            assert(runs_inside(op, nested_of(seq![b][0]), below));
        }
        assert(some_runs(op, seq![b], depth));
    }
}

proof fn lemma_inner_sum(a: Seq<TokenV>, b: Seq<TokenV>)
    ensures
        inner_commands(a + b) == inner_commands(a) + inner_commands(b),
    decreases b.len(),
{
    if b.len() == 0 {
        assert(a + b =~= a);
        assert(inner_commands(a) + inner_commands(b) =~= inner_commands(a));
    } else {
        lemma_inner_sum(a, b.drop_last());
        assert((a + b).drop_last() =~= a + b.drop_last());
        assert((a + b).last() == b.last());
        assert(inner_commands(a + b) =~= inner_commands(a) + inner_commands(b));
    }
}

// ---------------------------------------------------------------------------
// Programs
// ---------------------------------------------------------------------------

/// A word of letters that is none of those that stand in front of a program.
pub proof fn lemma_program_word(w: Seq<char>)
    requires
        w == "git"@ || w == "gh"@ || w == "eval"@,
    ensures
        !before_program(w),
        basename(w) == w,
        plain_word(w),
        !shell_program(w),
{
    reveal_strlit("git");
    reveal_strlit("gh");
    reveal_strlit("eval");
    assert forall|k: int| 0 <= k < w.len() implies shell_safe(#[trigger] w[k]) && w[k] != '/'
        && w[k] != '\\' && w[k] != '=' by {}
    lemma_no_slash(w, w.len() as int);
    assert(basename(w) =~= w);
    lemma_next_char(w, '=', 0);
    lemma_no_prefix_word(w);
}

/// Words with these first letters and lengths are no prefix words and no shells.
proof fn lemma_no_prefix_word(w: Seq<char>)
    requires
        w == "git"@ || w == "gh"@ || w == "eval"@,
    ensures
        !grouping_token(w),
        !wrapper_word(w),
        !shell_program(w),
{
    reveal_strlit("git");
    reveal_strlit("gh");
    reveal_strlit("eval");
    reveal_strlit("(");
    reveal_strlit(")");
    reveal_strlit("{");
    reveal_strlit("}");
    reveal_strlit("!");
    assert(w.len() >= 2);
    reveal_strlit("command");
    reveal_strlit("env");
    reveal_strlit("time");
    reveal_strlit("nohup");
    reveal_strlit("exec");
    reveal_strlit("sudo");
    reveal_strlit("stdbuf");
    reveal_strlit("then");
    reveal_strlit("else");
    reveal_strlit("do");
    reveal_strlit("elif");
    reveal_strlit("sh");
    reveal_strlit("bash");
    reveal_strlit("zsh");
    reveal_strlit("dash");
    reveal_strlit("ksh");
    assert(w[0] == 'g' || w[0] == 'e' && w[1] == 'v');
    assert("env"@[1] == 'n' && "exec"@[1] == 'x' && "else"@[1] == 'l' && "elif"@[1] == 'l');
}

proof fn lemma_program_first(seg: Seq<TokenV>)
    requires
        seg.len() > 0,
        !before_program(seg[0].text),
    ensures
        program_of(seg) == Some(0int),
{
}

/// Where `b` from `i + d` on is `a` from `i` on, git's subcommand is found in both or in
/// neither.
proof fn lemma_subcommand_shift(a: Seq<TokenV>, b: Seq<TokenV>, d: int, i: int)
    requires
        0 <= i,
        0 <= d,
        b.len() == a.len() + d,
        forall|k: int| i <= k < a.len() ==> (#[trigger] a[k]).text == b[k + d].text,
    ensures
        subcommand_from(a, i) is Some <==> subcommand_from(b, i + d) is Some,
        subcommand_from(a, i) matches Some(k) ==> i <= k < a.len() && subcommand_from(b, i + d)
            == Some(k + d),
    decreases a.len() - i,
{
    if i < a.len() {
        assert(a[i].text == b[i + d].text);
        if is_flag(a[i].text) {
            if git_value_flag(a[i].text) {
                if i + 2 <= a.len() {
                    lemma_subcommand_shift(a, b, d, i + 2);
                }
            } else {
                lemma_subcommand_shift(a, b, d, i + 1);
            }
        }
    }
}

/// Git words in front: what git runs is decided behind its options.
proof fn lemma_git_front(p: Seq<Seq<char>>, more: Seq<Seq<char>>, f: Seq<TokenV>)
    requires
        p.len() == 1,
        !before_program(p[0]),
        basename(p[0]) == "git"@,
        subcommand_from(as_tokens(p + more) + f, 1) == subcommand_from(
            as_tokens(p + more) + f,
            1 + more.len() as int,
        ),
    ensures
        git_runs(as_tokens(p) + f) == git_runs(as_tokens(p + more) + f),
        forall|c: Seq<char>|
            nested_of(as_tokens(p) + f).contains(c) ==> #[trigger] nested_of(
                as_tokens(p + more) + f,
            ).contains(c),
{
    let a = as_tokens(p) + f;
    let b = as_tokens(p + more) + f;
    let d = more.len() as int;
    assert(a[0].text == p[0] && b[0].text == p[0]);
    assert forall|k: int| 1 <= k < a.len() implies (#[trigger] a[k]).text == b[k + d].text by {
        assert(a[k] == f[k - 1] && b[k + d] == f[k - 1]);
    }
    lemma_subcommand_shift(a, b, d, 1);
    match subcommand_from(a, 1) {
        Some(k) => {
            assert(a[k].text == b[k + d].text);
        },
        None => {},
    }
    lemma_git_nested(p, f);
    lemma_git_nested(p + more, f);
    lemma_inner_sum(as_tokens(p), f);
    lemma_inner_sum(as_tokens(p + more), f);
    assert(as_tokens(p + more) =~= as_tokens(p) + as_tokens(more));
    lemma_inner_sum(as_tokens(p), as_tokens(more));
    let x = inner_commands(as_tokens(p));
    let y = inner_commands(as_tokens(more));
    let z = inner_commands(f);
    assert forall|c: Seq<char>| nested_of(a).contains(c) implies #[trigger] nested_of(b).contains(
        c,
    ) by {
        let i = choose|i: int| 0 <= i < (x + z).len() && (x + z)[i] == c;
        if i < x.len() {
            assert((x + y + z)[i] == c);
        } else {
            assert((x + y + z)[i + y.len()] == c);
        }
    }
}

proof fn lemma_git_nested(p: Seq<Seq<char>>, f: Seq<TokenV>)
    requires
        p.len() > 0,
        !before_program(p[0]),
        basename(p[0]) == "git"@,
    ensures
        nested_of(as_tokens(p) + f) == inner_commands(as_tokens(p) + f),
{
    let a = as_tokens(p) + f;
    assert(a[0].text == p[0]);
    reveal_strlit("git");
    reveal_strlit("sh");
    reveal_strlit("bash");
    reveal_strlit("zsh");
    reveal_strlit("dash");
    reveal_strlit("ksh");
    reveal_strlit("eval");
    assert("git"@[0] == 'g' && "sh"@[0] == 's' && "bash"@[0] == 'b' && "zsh"@[0] == 'z'
        && "dash"@[0] == 'd' && "ksh"@[0] == 'k' && "eval"@[0] == 'e');
    lemma_program_first(a);
    assert(script_commands(a, 0) =~= seq![]);
    assert(nested_of(a) =~= inner_commands(a));
}

/// The program of a segment that `git` begins is git, and `gh pr create` is not what it runs.
proof fn lemma_git_is_not_gh(p: Seq<Seq<char>>, f: Seq<TokenV>)
    requires
        p.len() > 0,
        !before_program(p[0]),
        basename(p[0]) == "git"@,
    ensures
        !runs(Gated::PrCreate, as_tokens(p) + f),
{
    reveal_strlit("git");
    reveal_strlit("gh");
    assert("git"@.len() == 3 && "gh"@.len() == 2);
    let a = as_tokens(p) + f;
    assert(a[0].text == p[0]);
    lemma_program_first(a);
}

// ---------------------------------------------------------------------------
// Git's options
// ---------------------------------------------------------------------------

/// Whether a call of the shell tool runs this command.
pub open spec fn runs_command(args: JsonV, command: Seq<char>) -> bool {
    text_in(member(args, "command"@)) == Some(command)
}

proof fn lemma_option(option: Seq<char>)
    requires
        option == "-C"@ || option == "-c"@ || option == "--git-dir"@ || option == "--work-tree"@
            || option == "--namespace"@,
    ensures
        is_flag(option),
        git_value_flag(option),
{
    reveal_strlit("-C");
    reveal_strlit("-c");
    reveal_strlit("--git-dir");
    reveal_strlit("--work-tree");
    reveal_strlit("--namespace");
}

proof fn lemma_git_word()
    ensures
        !before_program("git"@),
        basename("git"@) == "git"@,
{
    lemma_program_word("git"@);
}

/// A global option of git with its value, `-C`, `-c`, `--git-dir`, `--work-tree` or
/// `--namespace`, in front of the subcommand hides nothing: whatever a rule sees of `git w` it
/// sees of `git <option> <value> w`, for every value and every `w`.
pub proof fn a_global_option_hides_nothing(
    option: Seq<char>,
    value: Seq<char>,
    w: Seq<char>,
    plain: JsonV,
    with_option: JsonV,
)
    requires
        option == "-C"@ || option == "-c"@ || option == "--git-dir"@ || option == "--work-tree"@
            || option == "--namespace"@,
        runs_command(plain, spelled(seq!["git"@], w)),
        runs_command(with_option, spelled(seq!["git"@, option, value], w)),
    ensures
        GitPushRule.match_of("Bash"@, plain) is Some ==> GitPushRule.match_of(
            "Bash"@,
            with_option,
        ) is Some,
        GitCommitRule.match_of("Bash"@, plain) is Some ==> GitCommitRule.match_of(
            "Bash"@,
            with_option,
        ) is Some,
        GhPrCreateRule.match_of("Bash"@, plain) is Some ==> GhPrCreateRule.match_of(
            "Bash"@,
            with_option,
        ) is Some,
{
    let depth = MAX_NESTING as nat;
    let p = seq!["git"@];
    let more = seq![option, value];
    let q = seq!["git"@, option, value];
    assert(p + more =~= q);
    let f = first_part(w);
    lemma_git_word();
    lemma_option(option);
    let b = as_tokens(q) + f;
    assert(b[1].text == option);
    assert(subcommand_from(b, 1) == subcommand_from(b, 3));
    lemma_git_front(p, more, f);
    lemma_git_is_not_gh(p, f);
    lemma_git_is_not_gh(q, f);
    lemma_gates(Gated::Push, p, q, w, plain, with_option);
    lemma_gates(Gated::Commit, p, q, w, plain, with_option);
    lemma_gates(Gated::PrCreate, p, q, w, plain, with_option);
}

/// What is still seen is still gated.
proof fn lemma_gates(
    op: Gated,
    p: Seq<Seq<char>>,
    q: Seq<Seq<char>>,
    w: Seq<char>,
    a: JsonV,
    b: JsonV,
)
    requires
        p.len() > 0,
        q.len() > 0,
        runs(op, as_tokens(p) + first_part(w)) ==> runs(op, as_tokens(q) + first_part(w)),
        forall|c: Seq<char>|
            nested_of(as_tokens(p) + first_part(w)).contains(c) ==> #[trigger] nested_of(
                as_tokens(q) + first_part(w),
            ).contains(c),
        runs_command(a, spelled(p, w)),
        runs_command(b, spelled(q, w)),
    ensures
        gated(op, a) ==> gated(op, b),
{
    a_rule_gates_exactly_what_runs(a);
    a_rule_gates_exactly_what_runs(b);
    if gated(op, a) {
        lemma_still_seen(op, p, q, w, MAX_NESTING as nat);
    }
}

/// Whether the rule for the operation holds a call of the shell tool up.
pub open spec fn gated(op: Gated, args: JsonV) -> bool {
    match op {
        Gated::Push => GitPushRule.match_of("Bash"@, args) is Some,
        Gated::Commit => GitCommitRule.match_of("Bash"@, args) is Some,
        Gated::PrCreate => GhPrCreateRule.match_of("Bash"@, args) is Some,
    }
}

/// Any other option of git, a word that begins with a dash, takes no value: whatever a rule
/// sees of `git w` it sees of `git <option> w`.
pub proof fn an_option_without_a_value_hides_nothing(
    option: Seq<char>,
    w: Seq<char>,
    plain: JsonV,
    with_option: JsonV,
    op: Gated,
)
    requires
        option.len() > 0,
        option[0] == '-',
        option != "-C"@,
        option != "-c"@,
        option != "--git-dir"@,
        option != "--work-tree"@,
        option != "--namespace"@,
        runs_command(plain, spelled(seq!["git"@], w)),
        runs_command(with_option, spelled(seq!["git"@, option], w)),
    ensures
        gated(op, plain) ==> gated(op, with_option),
{
    let p = seq!["git"@];
    let more = seq![option];
    let q = seq!["git"@, option];
    assert(p + more =~= q);
    let f = first_part(w);
    lemma_git_word();
    let b = as_tokens(q) + f;
    assert(b[1].text == option);
    assert(subcommand_from(b, 1) == subcommand_from(b, 2));
    lemma_git_front(p, more, f);
    lemma_git_is_not_gh(p, f);
    lemma_git_is_not_gh(q, f);
    lemma_gates(op, p, q, w, plain, with_option);
}

// ---------------------------------------------------------------------------
// The gated calls themselves
// ---------------------------------------------------------------------------

/// A first segment that runs the operation is seen.
proof fn lemma_seen(op: Gated, ws: Seq<Seq<char>>, w: Seq<char>, args: JsonV)
    requires
        ws.len() > 0,
        runs(op, as_tokens(ws) + first_part(w)),
        runs_command(args, spelled(ws, w)),
    ensures
        gated(op, args),
{
    lemma_front(op, ws, w, MAX_NESTING as nat);
    let a = as_tokens(ws) + first_part(w);
    assert(runs(op, seq![a][0]));
    assert(some_runs(op, seq![a], MAX_NESTING as nat));
    a_rule_gates_exactly_what_runs(args);
}

/// `git push`, `git commit` and `gh pr create` are held up, whatever follows them; a push is
/// shown as such, with nothing to edit.
pub proof fn the_gated_calls_are_held_up(
    w: Seq<char>,
    push: JsonV,
    commit: JsonV,
    create: JsonV,
)
    requires
        runs_command(push, spelled(seq!["git"@, "push"@], w)),
        runs_command(commit, spelled(seq!["git"@, "commit"@], w)),
        runs_command(create, spelled(seq!["gh"@, "pr"@, "create"@], w)),
    ensures
        GitPushRule.match_of("Bash"@, push) == Some(
            GateMatchV { kind: "git push"@, params: seq![], note: None },
        ),
        GitCommitRule.match_of("Bash"@, commit) matches Some(m) && m.kind == "commit"@,
        GhPrCreateRule.match_of("Bash"@, create) matches Some(m) && m.kind == "PR creation"@,
{
    let f = first_part(w);
    lemma_git_word();
    lemma_program_word("gh"@);
    reveal_strlit("push");
    reveal_strlit("commit");
    reveal_strlit("pr");
    reveal_strlit("create");
    let ws = seq!["git"@, "push"@];
    let a = as_tokens(ws) + f;
    assert(a[0].text == "git"@ && a[1].text == "push"@);
    assert(subcommand_from(a, 1) == Some(1int));
    lemma_seen(Gated::Push, ws, w, push);
    let ws = seq!["git"@, "commit"@];
    let a = as_tokens(ws) + f;
    assert(a[0].text == "git"@ && a[1].text == "commit"@);
    assert(subcommand_from(a, 1) == Some(1int));
    lemma_seen(Gated::Commit, ws, w, commit);
    let ws = seq!["gh"@, "pr"@, "create"@];
    let a = as_tokens(ws) + f;
    assert(a[0].text == "gh"@ && a[1].text == "pr"@ && a[2].text == "create"@);
    assert(next_word(a, 1) == 1 && next_word(a, 2) == 2);
    lemma_seen(Gated::PrCreate, ws, w, create);
}

/// The rules look at the shell tool only.
pub proof fn only_the_shell_tool_is_gated(tool: Seq<char>, args: JsonV)
    requires
        tool != "Bash"@ || text_in(member(args, "command"@)) is None,
    ensures
        GitPushRule.match_of(tool, args) is None,
        GitCommitRule.match_of(tool, args) is None,
        GhPrCreateRule.match_of(tool, args) is None,
{
}

// ---------------------------------------------------------------------------
// Words in front of a program
// ---------------------------------------------------------------------------

/// The tokens of a segment with one more in front.
spec fn behind(t: Seq<char>, f: Seq<TokenV>) -> Seq<TokenV> {
    as_tokens(seq![t]) + f
}

proof fn lemma_program_shift(t: Seq<char>, f: Seq<TokenV>, i: int)
    requires
        0 <= i <= f.len(),
    ensures
        program_from(behind(t, f), i + 1) == (match program_from(f, i) {
            Some(k) => Some(k + 1),
            None => None::<int>,
        }),
    decreases f.len() - i,
{
    if i < f.len() {
        assert(behind(t, f)[i + 1] == f[i]);
        if before_program(f[i].text) {
            lemma_program_shift(t, f, i + 1);
        }
    }
}

proof fn lemma_program_range(f: Seq<TokenV>, i: int)
    requires
        0 <= i,
    ensures
        program_from(f, i) matches Some(k) ==> i <= k < f.len(),
    decreases f.len() - i,
{
    if i < f.len() && before_program(f[i].text) {
        lemma_program_range(f, i + 1);
    }
}

proof fn lemma_next_word_shift(t: Seq<char>, f: Seq<TokenV>, i: int)
    requires
        0 <= i,
    ensures
        next_word(behind(t, f), i + 1) == next_word(f, i) + 1,
        next_word(f, i) >= 0,
        i <= f.len() ==> next_word(f, i) <= f.len(),
    decreases f.len() - i,
{
    if i < f.len() {
        assert(behind(t, f)[i + 1] == f[i]);
        if is_flag(f[i].text) {
            lemma_next_word_shift(t, f, i + 1);
        }
    }
}

proof fn lemma_next_text_shift(t: Seq<char>, f: Seq<TokenV>, c: Seq<char>, i: int)
    requires
        0 <= i,
    ensures
        next_text(behind(t, f), c, i + 1) == next_text(f, c, i) + 1,
        next_text(f, c, i) >= 0,
    decreases f.len() - i,
{
    if i < f.len() {
        assert(behind(t, f)[i + 1] == f[i]);
        if f[i].text != c {
            lemma_next_text_shift(t, f, c, i + 1);
        }
    }
}

/// A word that only stands in front of a program changes nothing about what a segment runs
/// and what it hands to other commands.
proof fn lemma_prefix_word(op: Gated, t: Seq<char>, f: Seq<TokenV>)
    requires
        before_program(t),
    ensures
        runs(op, behind(t, f)) == runs(op, f),
        forall|c: Seq<char>|
            nested_of(f).contains(c) ==> #[trigger] nested_of(behind(t, f)).contains(c),
{
    let b = behind(t, f);
    assert(b[0].text == t);
    lemma_program_shift(t, f, 0);
    lemma_program_range(f, 0);
    lemma_inner_sum(as_tokens(seq![t]), f);
    match program_of(f) {
        Some(p) => {
            assert(b[p + 1] == f[p]);
            assert forall|k: int| p + 1 <= k < f.len() implies (#[trigger] f[k]).text == b[k
                + 1].text by {
                assert(b[k + 1] == f[k]);
            }
            lemma_subcommand_shift(f, b, 1, p + 1);
            match subcommand_from(f, p + 1) {
                Some(k) => {
                    assert(b[k + 1] == f[k]);
                },
                None => {},
            }
            lemma_next_word_shift(t, f, p + 1);
            let x = next_word(f, p + 1);
            lemma_next_word_shift(t, f, x + 1);
            let y = next_word(f, x + 1);
            if x < f.len() {
                assert(b[x + 1] == f[x]);
            }
            if y < f.len() {
                assert(b[y + 1] == f[y]);
            }
            lemma_next_text_shift(t, f, "-c"@, p + 1);
            let c = next_text(f, "-c"@, p + 1);
            if c + 1 < f.len() {
                assert(b[c + 2] == f[c + 1]);
            }
            assert(b.subrange(p + 2, b.len() as int) =~= f.subrange(p + 1, f.len() as int));
            assert(script_commands(b, p + 1) == script_commands(f, p));
            let s = script_commands(f, p);
            let z = inner_commands(f);
            let mine = inner_commands(as_tokens(seq![t]));
            assert forall|c: Seq<char>| nested_of(f).contains(c) implies #[trigger] nested_of(
                b,
            ).contains(c) by {
                let i = choose|i: int| 0 <= i < (s + z).len() && (s + z)[i] == c;
                if i < s.len() {
                    assert((s + (mine + z))[i] == c);
                } else {
                    assert((s + (mine + z))[i + mine.len()] == c);
                }
            }
        },
        None => {},
    }
}

/// What is seen of a command is seen of its first segment or of the others.
proof fn lemma_whole(op: Gated, w: Seq<char>, depth: nat)
    requires
        runs_anywhere(op, w, depth),
    ensures
        some_runs(op, seq![first_part(w)], depth) || some_runs(op, other_parts(w), depth),
{
    let x = tokens_of(w);
    let j = next_separator(x, 0);
    lemma_separator_bound(x, 0);
    assert(some_runs(op, segments(x), depth));
    if j > 0 {
        assert(x.subrange(0, j) =~= first_part(w));
        assert(segments(x) =~= seq![first_part(w)] + other_parts(w));
        lemma_some_runs_either(op, seq![first_part(w)], other_parts(w), depth);
    } else {
        assert(segments(x) =~= other_parts(w));
    }
}

/// A name that can be assigned to in front of a program.
pub open spec fn is_variable(name: Seq<char>) -> bool {
    &&& name.len() > 0
    &&& !('0' <= name[0] <= '9')
    &&& forall|i: int|
        0 <= i < name.len() ==> ('a' <= #[trigger] name[i] <= 'z' || 'A' <= name[i] <= 'Z' || '0'
            <= name[i] <= '9' || name[i] == '_')
}

/// The words that merely stand in front of another command: prefixes, keywords of the shell
/// and grouping.
pub open spec fn stands_in_front(t: Seq<char>) -> bool {
    ||| t == "command"@
    ||| t == "env"@
    ||| t == "time"@
    ||| t == "nohup"@
    ||| t == "exec"@
    ||| t == "sudo"@
    ||| t == "stdbuf"@
    ||| t == "then"@
    ||| t == "else"@
    ||| t == "do"@
    ||| t == "elif"@
    ||| t == "("@
    ||| t == ")"@
    ||| t == "{"@
    ||| t == "}"@
    ||| t == "!"@
}

proof fn lemma_wrapper_is_name(t: Seq<char>)
    requires
        wrapper_word(t),
    ensures
        basename(t) == t,
{
    reveal_strlit("command");
    reveal_strlit("env");
    reveal_strlit("time");
    reveal_strlit("nohup");
    reveal_strlit("exec");
    reveal_strlit("sudo");
    reveal_strlit("stdbuf");
    reveal_strlit("then");
    reveal_strlit("else");
    reveal_strlit("do");
    reveal_strlit("elif");
    lemma_no_slash(t, t.len() as int);
    assert(basename(t) =~= t);
}

proof fn lemma_assignment(name: Seq<char>, value: Seq<char>)
    requires
        is_variable(name),
    ensures
        is_assignment(name + seq!['='] + value),
{
    let t = name + seq!['='] + value;
    let n = name.len() as int;
    lemma_next_char(t, '=', 0);
    let e = next_char(t, '=', 0);
    assert(t[n] == '=');
    assert forall|i: int| 0 <= i < n implies name_char(#[trigger] t[i]) && t[i] != '=' by {
        assert(t[i] == name[i]);
    }
    assert(e == n) by {
        if e < n {
            assert(t[e] == '=');
        }
    }
    assert(t[0] == name[0]);
}

proof fn lemma_gates_behind(op: Gated, t: Seq<char>, w: Seq<char>, plain: JsonV, with_word: JsonV)
    requires
        before_program(t),
        runs_command(plain, w),
        runs_command(with_word, spelled(seq![t], w)),
        gated(op, plain),
    ensures
        gated(op, with_word),
{
    let depth = MAX_NESTING as nat;
    a_rule_gates_exactly_what_runs(plain);
    a_rule_gates_exactly_what_runs(with_word);
    lemma_whole(op, w, depth);
    lemma_front(op, seq![t], w, depth);
    let f = first_part(w);
    let b = behind(t, f);
    lemma_prefix_word(op, t, f);
    if some_runs(op, seq![f], depth) {
        let below = (depth - 1) as nat;
        if runs(op, f) {
            assert(runs(op, seq![b][0]));
        } else {
            let i = choose|i: int| 0 <= i < seq![f].len() && runs_inside(
                op,
                #[trigger] nested_of(seq![f][i]),
                below,
            );
            let inner = nested_of(f);
            let k = choose|k: int| 0 <= k < inner.len() && runs_anywhere(
                op,
                #[trigger] inner[k],
                below,
            );
            assert(inner.contains(inner[k]));
            let m = nested_of(b);
            assert(m.contains(inner[k]));
            let l = choose|l: int| 0 <= l < m.len() && m[l] == inner[k];
            assert(runs_anywhere(op, m[l], below));
            assert(runs_inside(op, nested_of(seq![b][0]), below));
        }
        assert(some_runs(op, seq![b], depth));
    }
}

/// A prefix in front of a command hides nothing: whatever a rule sees of `w` it sees of
/// `sudo w`, `env w`, `NAME=value w` and their like.
pub proof fn a_prefix_hides_nothing(
    op: Gated,
    t: Seq<char>,
    name: Seq<char>,
    value: Seq<char>,
    w: Seq<char>,
    plain: JsonV,
    with_word: JsonV,
)
    requires
        t == "command"@ || t == "env"@ || t == "time"@ || t == "nohup"@ || t == "exec"@ || t
            == "sudo"@ || t == "stdbuf"@ || t == "then"@ || t == "else"@ || t == "do"@ || t
            == "elif"@ || t == "("@ || t == ")"@ || t == "{"@ || t == "}"@ || t == "!"@ || (
        is_variable(name) && t == name + seq!['='] + value),
        runs_command(plain, w),
        runs_command(with_word, spelled(seq![t], w)),
    ensures
        gated(op, plain) ==> gated(op, with_word),
{
    if is_variable(name) && t == name + seq!['='] + value {
        lemma_assignment(name, value);
    } else if !grouping_token(t) {
        lemma_wrapper_is_name(t);
    }
    if gated(op, plain) {
        lemma_gates_behind(op, t, w, plain, with_word);
    }
}

proof fn lemma_path(dir: Seq<char>, name: Seq<char>)
    requires
        name == "git"@ || name == "gh"@,
        !dir.contains('='),
    ensures
        basename(dir + seq!['/'] + name) == name,
        !before_program(dir + seq!['/'] + name),
{
    reveal_strlit("git");
    reveal_strlit("gh");
    lemma_program_word(name);
    let t = dir + seq!['/'] + name;
    let n = dir.len() + 1;
    lemma_slash_before(t, n as int, t.len() as int);
    assert(basename(t) =~= name);
    lemma_next_char(t, '=', 0);
    if is_assignment(t) {
        let e = next_char(t, '=', 0);
        assert(t[e] == '=');
        if e < dir.len() {
            assert(dir[e] == '=');
            assert(dir.contains('='));
        }
    }
    assert(!grouping_token(t)) by {
        reveal_strlit("(");
        reveal_strlit(")");
        reveal_strlit("{");
        reveal_strlit("}");
        reveal_strlit("!");
        assert(t.len() >= 3);
    }
    lemma_no_prefix_word(name);
}

proof fn lemma_slash_before(t: Seq<char>, n: int, j: int)
    requires
        0 < n <= j <= t.len(),
        t[n - 1] == '/',
        forall|k: int| n <= k < j ==> #[trigger] t[k] != '/' && t[k] != '\\',
    ensures
        after_slash(t, j) == n,
    decreases j,
{
    if j > n {
        assert(t[j - 1] != '/');
        lemma_slash_before(t, n, j - 1);
    }
}

/// A program called by its path is the program: whatever a rule sees of `git push` it sees of
/// `/usr/bin/git push`, and so for every gated call and every directory.
pub proof fn a_path_hides_nothing(
    dir: Seq<char>,
    w: Seq<char>,
    push: JsonV,
    commit: JsonV,
    create: JsonV,
)
    requires
        !dir.contains('='),
        runs_command(push, spelled(seq![dir + seq!['/'] + "git"@, "push"@], w)),
        runs_command(commit, spelled(seq![dir + seq!['/'] + "git"@, "commit"@], w)),
        runs_command(create, spelled(seq![dir + seq!['/'] + "gh"@, "pr"@, "create"@], w)),
    ensures
        gated(Gated::Push, push),
        gated(Gated::Commit, commit),
        gated(Gated::PrCreate, create),
{
    let f = first_part(w);
    lemma_path(dir, "git"@);
    lemma_path(dir, "gh"@);
    reveal_strlit("push");
    reveal_strlit("commit");
    reveal_strlit("pr");
    reveal_strlit("create");
    let ws = seq![dir + seq!['/'] + "git"@, "push"@];
    let a = as_tokens(ws) + f;
    assert(a[0].text == ws[0] && a[1].text == "push"@);
    assert(subcommand_from(a, 1) == Some(1int));
    lemma_seen(Gated::Push, ws, w, push);
    let ws = seq![dir + seq!['/'] + "git"@, "commit"@];
    let a = as_tokens(ws) + f;
    assert(a[0].text == ws[0] && a[1].text == "commit"@);
    assert(subcommand_from(a, 1) == Some(1int));
    lemma_seen(Gated::Commit, ws, w, commit);
    let ws = seq![dir + seq!['/'] + "gh"@, "pr"@, "create"@];
    let a = as_tokens(ws) + f;
    assert(a[0].text == ws[0] && a[1].text == "pr"@ && a[2].text == "create"@);
    assert(next_word(a, 1) == 1 && next_word(a, 2) == 2);
    lemma_seen(Gated::PrCreate, ws, w, create);
}

/// Flags between the words of `gh pr create` hide nothing.
pub proof fn flags_of_gh_hide_nothing(
    f1: Seq<char>,
    f2: Seq<char>,
    w: Seq<char>,
    create: JsonV,
)
    requires
        f1.len() > 0 && f1[0] == '-',
        f2.len() > 0 && f2[0] == '-',
        runs_command(create, spelled(seq!["gh"@, f1, "pr"@, f2, "create"@], w)),
    ensures
        gated(Gated::PrCreate, create),
{
    let f = first_part(w);
    lemma_program_word("gh"@);
    reveal_strlit("pr");
    reveal_strlit("create");
    let ws = seq!["gh"@, f1, "pr"@, f2, "create"@];
    let a = as_tokens(ws) + f;
    assert(a[0].text == "gh"@ && a[1].text == f1 && a[2].text == "pr"@ && a[3].text == f2
        && a[4].text == "create"@);
    assert(next_word(a, 2) == 2 && next_word(a, 1) == 2);
    assert(next_word(a, 4) == 4 && next_word(a, 3) == 4);
    lemma_seen(Gated::PrCreate, ws, w, create);
}

// ---------------------------------------------------------------------------
// Shells
// ---------------------------------------------------------------------------

/// A command handed to a shell by name is looked into: `sh`, `bash`, `zsh`, `dash` and `ksh`,
/// and `eval`.
pub proof fn shells_are_looked_into(op: Gated, shell: Seq<char>, c: Seq<char>, depth: nat)
    requires
        shell == "sh"@ || shell == "bash"@ || shell == "zsh"@ || shell == "dash"@ || shell
            == "ksh"@,
        runs_anywhere(op, c, depth),
    ensures
        runs_anywhere(op, wrapped(shell, c), depth + 1),
        runs_anywhere(op, spelled(seq!["eval"@], quoted(c)), depth + 1),
{
    a_wrapped_command_is_still_seen(op, shell, c, depth);
    lemma_program_word("eval"@);
    let ws = seq!["eval"@];
    lemma_front(op, ws, quoted(c), depth + 1);
    a_quoted_value_is_one_word(c);
    let x = tokens_of(quoted(c));
    assert(!x[0].is_separator);
    assert(next_separator(x, 1) == 1);
    assert(next_separator(x, 0) == 1);
    let f = first_part(quoted(c));
    assert(f =~= x);
    let a = as_tokens(ws) + f;
    assert(a[0].text == "eval"@ && a[1].text == c);
    assert(program_of(a) == Some(0int));
    let tail = a.subrange(1, a.len() as int);
    assert(crate::gate::rules::texts_of(tail)[0] == c);
    let inner = nested_of(a);
    assert(inner[0] == c);
    assert(runs_anywhere(op, inner[0], depth));
    assert(runs_inside(op, nested_of(seq![a][0]), depth));
    assert(some_runs(op, seq![a], depth + 1));
}

/// A gated call is seen three shells deep.
pub proof fn a_call_is_seen_three_shells_deep(
    op: Gated,
    a: Seq<char>,
    b: Seq<char>,
    c: Seq<char>,
    command: Seq<char>,
    args: JsonV,
)
    requires
        a == "sh"@ || a == "bash"@ || a == "zsh"@ || a == "dash"@ || a == "ksh"@,
        b == "sh"@ || b == "bash"@ || b == "zsh"@ || b == "dash"@ || b == "ksh"@,
        c == "sh"@ || c == "bash"@ || c == "zsh"@ || c == "dash"@ || c == "ksh"@,
        runs_anywhere(op, command, 0),
        runs_command(args, wrapped(a, wrapped(b, wrapped(c, command)))),
    ensures
        gated(op, args),
{
    shells_are_looked_into(op, c, command, 0);
    shells_are_looked_into(op, b, wrapped(c, command), 1);
    shells_are_looked_into(op, a, wrapped(b, wrapped(c, command)), 2);
    a_rule_gates_exactly_what_runs(args);
}

// ---------------------------------------------------------------------------
// What is let through
// ---------------------------------------------------------------------------

/// A command of plain words only, nothing in it that the shell would read otherwise.
pub open spec fn all_plain(ws: Seq<Seq<char>>) -> bool {
    forall|i: int| 0 <= i < ws.len() ==> plain_word(#[trigger] ws[i])
}

proof fn lemma_plain_holds_no_command(t: Seq<char>)
    requires
        plain_word(t),
    ensures
        inner_command(t) is None,
{
    assert(shell_safe(t[0]));
    assert(shell_safe(t[t.len() - 1]));
    lemma_not_blank(t);
    assert(t[0] != '$' && t[0] != '`');
}

proof fn lemma_plain_inner(ws: Seq<Seq<char>>)
    requires
        all_plain(ws),
    ensures
        inner_commands(as_tokens(ws)) == Seq::<Seq<char>>::empty(),
    decreases ws.len(),
{
    if ws.len() > 0 {
        let d = ws.drop_last();
        assert forall|i: int| 0 <= i < d.len() implies plain_word(#[trigger] d[i]) by {
            assert(d[i] == ws[i]);
        }
        lemma_plain_inner(d);
        assert(as_tokens(ws).drop_last() =~= as_tokens(d));
        assert(plain_word(ws[ws.len() - 1]));
        lemma_plain_holds_no_command(ws.last());
        assert(as_tokens(ws).last().text == ws.last());
    }
}

/// A command of plain words is one segment, and hands nothing on unless its program does.
proof fn lemma_words_alone(op: Gated, ws: Seq<Seq<char>>, depth: nat)
    requires
        ws.len() > 0,
        all_plain(ws),
        !runs(op, as_tokens(ws)),
        program_of(as_tokens(ws)) matches Some(p) ==> script_commands(as_tokens(ws), p).len() == 0,
    ensures
        !runs_anywhere(op, spelled(ws, seq![]), depth),
{
    let none = Seq::<char>::empty();
    lemma_front(op, ws, none, depth);
    let x = tokens_of(none);
    assert(x =~= seq![]) by {
        assert(crate::gate::shell::char_tokens(none) =~= seq![]);
    }
    assert(first_part(none) =~= seq![]);
    let a = as_tokens(ws) + first_part(none);
    assert(a =~= as_tokens(ws));
    lemma_plain_inner(ws);
    assert(nested_of(a) =~= seq![]);
    assert(seq![a][0] == a);
    assert(!runs_inside(op, nested_of(a), (depth - 1) as nat));
    assert(!some_runs(op, seq![a], depth));
}

/// Git's other subcommands are let through: of plain words, `git x …` is a push exactly where
/// `x` is `push`, and a commit exactly where it is `commit`.
pub proof fn other_subcommands_are_let_through(
    x: Seq<char>,
    rest: Seq<Seq<char>>,
    args: JsonV,
)
    requires
        plain_word(x),
        x[0] != '-',
        all_plain(rest),
        runs_command(args, spelled(seq!["git"@, x] + rest, seq![])),
    ensures
        gated(Gated::Push, args) <==> x == "push"@,
        gated(Gated::Commit, args) <==> x == "commit"@,
        !gated(Gated::PrCreate, args),
{
    let ws = seq!["git"@, x] + rest;
    lemma_git_word();
    lemma_program_word("git"@);
    assert forall|i: int| 0 <= i < ws.len() implies plain_word(#[trigger] ws[i]) by {
        if i >= 2 {
            assert(ws[i] == rest[i - 2]);
        }
    }
    let a = as_tokens(ws);
    let f = Seq::<TokenV>::empty();
    assert(a + f =~= a);
    assert(a[0].text == "git"@ && a[1].text == x);
    lemma_git_nested(ws, f);
    assert(program_of(a) == Some(0int));
    assert(subcommand_from(a, 1) == Some(1int));
    lemma_git_is_not_gh(ws, f);
    assert(script_commands(a, 0).len() == 0) by {
        lemma_plain_inner(ws);
        assert(nested_of(a).len() == script_commands(a, 0).len() + inner_commands(a).len());
    }
    a_rule_gates_exactly_what_runs(args);
    let depth = MAX_NESTING as nat;
    lemma_words_alone(Gated::PrCreate, ws, depth);
    if x != "push"@ {
        lemma_words_alone(Gated::Push, ws, depth);
    } else {
        lemma_seen_alone(Gated::Push, ws, args);
    }
    if x != "commit"@ {
        lemma_words_alone(Gated::Commit, ws, depth);
    } else {
        lemma_seen_alone(Gated::Commit, ws, args);
    }
}

proof fn lemma_seen_alone(op: Gated, ws: Seq<Seq<char>>, args: JsonV)
    requires
        ws.len() > 0,
        runs(op, as_tokens(ws)),
        runs_command(args, spelled(ws, seq![])),
    ensures
        gated(op, args),
{
    let none = Seq::<char>::empty();
    assert(tokens_of(none) =~= seq![]) by {
        assert(crate::gate::shell::char_tokens(none) =~= seq![]);
    }
    assert(first_part(none) =~= seq![]);
    assert(as_tokens(ws) + first_part(none) =~= as_tokens(ws));
    lemma_seen(op, ws, none, args);
}

/// Another program is let through, whatever its words say: `echo git push` is no push.
pub proof fn other_programs_are_let_through(
    program: Seq<char>,
    rest: Seq<Seq<char>>,
    args: JsonV,
    op: Gated,
)
    requires
        plain_word(program),
        !program.contains('/'),
        !program.contains('='),
        program != "git"@,
        program != "gh"@,
        program != "eval"@,
        program != "sh"@ && program != "bash"@ && program != "zsh"@ && program != "dash"@
            && program != "ksh"@,
        !stands_in_front(program),
        all_plain(rest),
        runs_command(args, spelled(seq![program] + rest, seq![])),
    ensures
        !gated(op, args),
{
    let ws = seq![program] + rest;
    assert forall|i: int| 0 <= i < ws.len() implies plain_word(#[trigger] ws[i]) by {
        if i >= 1 {
            assert(ws[i] == rest[i - 1]);
        }
    }
    let a = as_tokens(ws);
    assert(a[0].text == program);
    assert forall|k: int| 0 <= k < program.len() implies #[trigger] program[k] != '/' && program[k]
        != '\\' by {
        assert(shell_safe(program[k]));
        assert(program.contains(program[k]));
    }
    lemma_no_slash(program, program.len() as int);
    assert(basename(program) =~= program);
    lemma_next_char(program, '=', 0);
    if is_assignment(program) {
        let e = next_char(program, '=', 0);
        assert(program[e] == '=');
        assert(program.contains('='));
    }
    assert(!before_program(program));
    assert(program_of(a) == Some(0int));
    assert(script_commands(a, 0).len() == 0);
    a_rule_gates_exactly_what_runs(args);
    lemma_words_alone(op, ws, MAX_NESTING as nat);
}

} // verus!
