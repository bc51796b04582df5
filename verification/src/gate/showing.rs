//! What a gate shows of a command, word by word: the message, the title and the body that
//! git and gh would use, and nothing to edit where that could not be told.
use crate::gate::rules::{
    body_flag, external_flag, external_from, flag_ambiguous, flag_at, flag_count, flag_last,
    flag_part, flag_swallowed, is_cluster, matching, message_flag, next_separator, next_word,
    program_of, runs, segments, shown_value, subcommand_from, takes_next, title_flag,
    without_dashes, FlagName, GateMatchV, GateParamV, Gated, GateRule, GhPrCreateRule,
    GitCommitRule,
};
use crate::gate::shell::{heredoc_of, tokens_of, TokenV};
use crate::gate::spotting::{
    as_tokens, lemma_program_word, lemma_spelled, runs_command, spelled,
};
use crate::json::JsonV;
use crate::text::{has_prefix, has_suffix, lemma_next_char, next_char};
use vstd::prelude::*;

verus! {

/// Whether a token run holds these words and no separator.
spec fn reads(ts: Seq<TokenV>, ws: Seq<Seq<char>>) -> bool {
    &&& ts.len() == ws.len()
    &&& forall|i: int| 0 <= i < ts.len() ==> (#[trigger] ts[i]).text == ws[i] && !ts[i].is_separator
}

proof fn lemma_reads(ws: Seq<Seq<char>>)
    requires
        ws.len() > 0,
    ensures
        reads(tokens_of(spelled(ws, seq![])), ws),
        segments(tokens_of(spelled(ws, seq![]))) == seq![tokens_of(spelled(ws, seq![]))],
{
    let none = Seq::<char>::empty();
    let ts = tokens_of(spelled(ws, none));
    lemma_spelled(ws, none);
    assert(tokens_of(none) =~= seq![]) by {
        assert(crate::gate::shell::char_tokens(none) =~= seq![]);
    }
    let us = as_tokens(ws) + tokens_of(none);
    assert forall|i: int| 0 <= i < ts.len() implies (#[trigger] ts[i]).text == ws[i]
        && !ts[i].is_separator by {
        assert(us[i].text == ws[i]);
    }
    lemma_none_ends(ts, 0);
    assert(ts.subrange(0, ts.len() as int) =~= ts);
    assert(segments(ts) =~= seq![ts]);
}

proof fn lemma_none_ends(ts: Seq<TokenV>, i: int)
    requires
        0 <= i <= ts.len(),
        forall|k: int| 0 <= k < ts.len() ==> !(#[trigger] ts[k]).is_separator,
    ensures
        next_separator(ts, i) == ts.len(),
    decreases ts.len() - i,
{
    if i < ts.len() {
        lemma_none_ends(ts, i + 1);
    }
}

proof fn lemma_one_matching(op: Gated, seg: Seq<TokenV>)
    requires
        runs(op, seg),
    ensures
        matching(op, seq![seg]) == seq![seg],
{
    let one = seq![seg];
    assert(one.drop_last() =~= seq![]);
    assert(matching(op, one.drop_last()) =~= seq![]);
    assert(matching(op, one) =~= seq![seg]);
}

/// A word that begins with no dash is no flag of any kind.
proof fn lemma_no_flag(seg: Seq<TokenV>, f: FlagName, i: int)
    requires
        0 <= i < seg.len(),
        seg[i].text.len() == 0 || seg[i].text[0] != '-',
        f.long@.len() > 0 && f.long@[0] == '-',
        f.short@.len() > 0 && f.short@[0] == '-',
    ensures
        flag_at(seg, f, i) is None,
        !takes_next(seg[i].text, f),
{
    let w = seg[i].text;
    let p = f.long@.push('=');
    if has_prefix(w, p) {
        assert(w.subrange(0, p.len() as int)[0] == p[0]);
    }
    if has_prefix(w, f.short@) {
        assert(w.subrange(0, f.short@.len() as int)[0] == f.short@[0]);
    }
}

/// A flag that occurs once is counted once, and is the last one.
proof fn lemma_once(seg: Seq<TokenV>, f: FlagName, m: int, n: int)
    requires
        0 <= m < seg.len(),
        0 <= n <= seg.len(),
        forall|i: int| 0 <= i < seg.len() && i != m ==> #[trigger] flag_at(seg, f, i) is None,
        flag_at(seg, f, m) is Some,
    ensures
        flag_count(seg, f, n) == if n > m {
            1nat
        } else {
            0nat
        },
        n > m ==> flag_last(seg, f, n) == flag_at(seg, f, m),
        n <= m ==> flag_last(seg, f, n) is None,
    decreases n,
{
    if n > 0 {
        lemma_once(seg, f, m, n - 1);
        if n - 1 != m {
            assert(flag_at(seg, f, n - 1) is None);
        }
    }
}

proof fn lemma_external_dash(w: Seq<char>)
    requires
        external_flag(w),
    ensures
        w.len() >= 2,
        w[0] == '-',
        w[1] == 'F' || w[1] == 'C' || w[1] == '-' && w.len() >= 6,
        w != "--message"@,
        w != "--title"@,
        w != "--body"@,
{
    reveal_strlit("-F");
    reveal_strlit("--file");
    reveal_strlit("--body-file");
    reveal_strlit("-C");
    reveal_strlit("--reuse-message");
    reveal_strlit("--fill");
    reveal_strlit("--fill-first");
    reveal_strlit("--fill-verbose");
    reveal_strlit("--template");
    reveal_strlit("--message");
    reveal_strlit("--title");
    reveal_strlit("--body");
    assert("--message"@[2] == 'm' && "--title"@[3] == 'i' && "--template"@[3] == 'e');
    assert("--title"@[2] == 't' && "--body"@.len() == 6 && "--body-file"@.len() == 11);
    assert("--file"@[2] == 'f' && "--reuse-message"@[2] == 'r' && "--fill"@[2] == 'f'
        && "--fill-first"@[2] == 'f' && "--fill-verbose"@[2] == 'f');
    assert("--body"@[2] == 'b' && "--template"@[2] == 't');
}

proof fn lemma_flag_part(w: Seq<char>)
    ensures
        flag_part(w).len() <= w.len(),
        forall|i: int| 0 <= i < flag_part(w).len() ==> #[trigger] flag_part(w)[i] == w[i],
        !w.contains('=') ==> flag_part(w) == w,
{
    lemma_next_char(w, '=', 0);
    if !w.contains('=') {
        let e = next_char(w, '=', 0);
        if e < w.len() {
            assert(w[e] == '=');
            assert(w.contains('='));
        }
        assert(flag_part(w) =~= w);
    }
}

proof fn lemma_no_external(seg: Seq<TokenV>, i: int)
    requires
        0 <= i,
        forall|k: int| 0 <= k < seg.len() ==> !external_flag(flag_part((#[trigger] seg[k]).text)),
    ensures
        external_from(seg, i) is None,
    decreases seg.len() - i,
{
    if i < seg.len() {
        assert(!external_flag(flag_part(seg[i].text)));
        lemma_no_external(seg, i + 1);
    }
}

proof fn lemma_some_external(seg: Seq<TokenV>, i: int, k: int)
    requires
        0 <= i <= k < seg.len(),
        external_flag(flag_part(seg[k].text)),
    ensures
        external_from(seg, i) is Some,
    decreases k - i,
{
    if i < k && !external_flag(flag_part(seg[i].text)) {
        lemma_some_external(seg, i + 1, k);
    }
}

proof fn lemma_word_not_external(w: Seq<char>)
    requires
        w.len() == 0 || w[0] != '-',
    ensures
        !external_flag(flag_part(w)),
{
    lemma_flag_part(w);
    if external_flag(flag_part(w)) {
        lemma_external_dash(flag_part(w));
        assert(flag_part(w)[0] == w[0]);
    }
}

/// Words none of which is a flag.
pub open spec fn no_flags(ws: Seq<Seq<char>>) -> bool {
    forall|i: int| 0 <= i < ws.len() ==> (#[trigger] ws[i]).len() == 0 || ws[i][0] != '-'
}

/// A value that is shown as it stands: no flag, and no substitution.
pub open spec fn literal(v: Seq<char>) -> bool {
    v.len() == 0 || v[0] != '-' && v[0] != '$'
}

// ---------------------------------------------------------------------------
// Commit messages
// ---------------------------------------------------------------------------

proof fn lemma_commit_runs(ts: Seq<TokenV>, ws: Seq<Seq<char>>)
    requires
        reads(ts, ws),
        ws.len() >= 2,
        ws[0] == "git"@,
        ws[1] == "commit"@,
    ensures
        runs(Gated::Commit, ts),
{
    lemma_program_word("git"@);
    reveal_strlit("commit");
    assert(ts[0].text == "git"@ && ts[1].text == "commit"@);
    assert(program_of(ts) == Some(0int));
    assert(subcommand_from(ts, 1) == Some(1int));
}

proof fn lemma_message_flag()
    ensures
        message_flag().long@ == "--message"@,
        message_flag().short@ == "-m"@,
        message_flag().cluster,
        "--message"@.len() > 0 && "--message"@[0] == '-',
        "-m"@.len() > 0 && "-m"@[0] == '-',
{
    reveal_strlit("--message");
    reveal_strlit("-m");
}

/// The message of a commit is shown, to be edited: `git commit … -m <message> …` or
/// `--message <message>`, or `-am <message>`, between words that are no flags.
pub proof fn the_message_is_shown(
    a: Seq<Seq<char>>,
    flag: Seq<char>,
    message: Seq<char>,
    b: Seq<Seq<char>>,
    args: JsonV,
)
    requires
        flag == "-m"@ || flag == "--message"@ || flag == "-am"@,
        literal(message),
        no_flags(a),
        no_flags(b),
        runs_command(
            args,
            spelled(seq!["git"@, "commit"@] + a + seq![flag, message] + b, seq![]),
        ),
    ensures
        GitCommitRule.match_of("Bash"@, args) == Some(
            GateMatchV {
                kind: "commit"@,
                params: seq![
                    GateParamV {
                        key: "message"@,
                        label: "Commit message"@,
                        value: message,
                        multiline: true,
                    },
                ],
                note: None,
            },
        ),
{
    let ws = seq!["git"@, "commit"@] + a + seq![flag, message] + b;
    let ts = tokens_of(spelled(ws, seq![]));
    lemma_reads(ws);
    lemma_commit_runs(ts, ws);
    lemma_one_matching(Gated::Commit, ts);
    let m = 2 + a.len() as int;
    let f = message_flag();
    lemma_message_flag();
    assert(ws[m] == flag && ws[m + 1] == message);
    assert(ts[m].text == flag && ts[m + 1].text == message);
    reveal_strlit("git");
    reveal_strlit("commit");
    assert forall|i: int| 0 <= i < ts.len() && i != m implies ws[i].len() == 0 || (
    #[trigger] ws[i])[0] != '-' by {
        if 2 <= i < m {
            assert(ws[i] == a[i - 2]);
        } else if i > m + 1 {
            assert(ws[i] == b[i - m - 2]);
        }
    }
    lemma_message_word(flag);
    assert forall|i: int| 0 <= i < ts.len() && i != m implies #[trigger] flag_at(ts, f, i) is None
        && !flag_swallowed(ts, f, i) by {
        assert(ts[i].text == ws[i]);
        lemma_no_flag(ts, f, i);
    }
    assert(flag_at(ts, f, m) matches Some(hit) && hit.value == message);
    lemma_once(ts, f, m, ts.len() as int);
    assert(!flag_swallowed(ts, f, m));
    assert(!flag_ambiguous(ts, f)) by {
        if flag_ambiguous(ts, f) {
            let i = choose|i: int| 0 <= i < ts.len() && #[trigger] flag_swallowed(ts, f, i);
            if i != m {
                assert(flag_at(ts, f, i) is None);
            }
        }
    }
    assert forall|k: int| 0 <= k < ts.len() implies !external_flag(
        flag_part((#[trigger] ts[k]).text),
    ) by {
        if k != m {
            assert(ts[k].text == ws[k]);
            lemma_word_not_external(ws[k]);
        }
    }
    lemma_no_external(ts, 0);
    assert(heredoc_of(message) is None);
    assert(shown_value(ts, f) == message);
}

/// The ways to say that a message follows.
proof fn lemma_message_word(flag: Seq<char>)
    requires
        flag == "-m"@ || flag == "--message"@ || flag == "-am"@,
    ensures
        takes_next(flag, message_flag()),
        !external_flag(flag_part(flag)),
        flag == "-m"@ || flag == "--message"@ || {
            &&& !has_prefix(flag, "--message"@.push('='))
            &&& !has_prefix(flag, "-m"@)
            &&& is_cluster(flag, "-m"@)
        },
{
    reveal_strlit("-m");
    reveal_strlit("--message");
    reveal_strlit("-am");
    lemma_flag_part(flag);
    if external_flag(flag_part(flag)) {
        lemma_external_dash(flag_part(flag));
        assert(flag_part(flag)[1] == flag[1]);
        if flag == "--message"@ {
            assert(!flag.contains('='));
        }
    }
    if flag == "-am"@ {
        let p = "--message"@.push('=');
        if has_prefix(flag, p) {
            assert(p.len() == 10 && flag.len() == 3);
        }
        if has_prefix(flag, "-m"@) {
            assert(flag.subrange(0, 2)[1] == 'm');
        }
        let s = "-m"@;
        assert(s.subrange(1, 2) =~= seq!['m']);
        assert(without_dashes(seq!['m']) == seq!['m']);
        assert(without_dashes(s) == seq!['m']) by {
            assert(without_dashes(s) == without_dashes(s.subrange(1, s.len() as int)));
        }
        assert(flag.subrange(2, 3) =~= seq!['m']);
        assert(has_suffix(flag, seq!['m']));
    }
}

/// A message in the flag's own word is shown too: `--message=<message>`.
pub proof fn the_message_behind_an_equals_sign_is_shown(
    a: Seq<Seq<char>>,
    message: Seq<char>,
    b: Seq<Seq<char>>,
    args: JsonV,
)
    requires
        literal(message),
        no_flags(a),
        no_flags(b),
        runs_command(
            args,
            spelled(
                seq!["git"@, "commit"@] + a + seq!["--message="@ + message] + b,
                seq![],
            ),
        ),
    ensures
        GitCommitRule.match_of("Bash"@, args) matches Some(m) && m.note is None && m.params.len()
            == 1 && m.params[0].key == "message"@ && m.params[0].value == message,
{
    let word = "--message="@ + message;
    let ws = seq!["git"@, "commit"@] + a + seq![word] + b;
    let ts = tokens_of(spelled(ws, seq![]));
    lemma_reads(ws);
    lemma_commit_runs(ts, ws);
    lemma_one_matching(Gated::Commit, ts);
    let m = 2 + a.len() as int;
    let f = message_flag();
    lemma_message_flag();
    assert(ws[m] == word);
    assert(ts[m].text == word);
    reveal_strlit("git");
    reveal_strlit("commit");
    reveal_strlit("--message");
    reveal_strlit("--message=");
    reveal_strlit("-m");
    assert forall|i: int| 0 <= i < ts.len() && i != m implies ws[i].len() == 0 || (
    #[trigger] ws[i])[0] != '-' by {
        if 2 <= i < m {
            assert(ws[i] == a[i - 2]);
        } else if i > m {
            assert(ws[i] == b[i - m - 1]);
        }
    }
    assert forall|i: int| 0 <= i < ts.len() && i != m implies #[trigger] flag_at(ts, f, i) is None
        && !flag_swallowed(ts, f, i) by {
        assert(ts[i].text == ws[i]);
        lemma_no_flag(ts, f, i);
    }
    let p = "--message"@.push('=');
    assert(p =~= "--message="@);
    assert(word.subrange(0, 10) =~= p);
    assert(word.subrange(10, word.len() as int) =~= message);
    assert(word.len() >= 10);
    assert(flag_at(ts, f, m) matches Some(hit) && hit.value == message);
    assert(!takes_next(word, f));
    lemma_once(ts, f, m, ts.len() as int);
    assert(!flag_ambiguous(ts, f)) by {
        if flag_ambiguous(ts, f) {
            let i = choose|i: int| 0 <= i < ts.len() && #[trigger] flag_swallowed(ts, f, i);
            if i != m {
                assert(flag_at(ts, f, i) is None);
            }
        }
    }
    assert forall|k: int| 0 <= k < ts.len() implies !external_flag(
        flag_part((#[trigger] ts[k]).text),
    ) by {
        if k != m {
            assert(ts[k].text == ws[k]);
            lemma_word_not_external(ws[k]);
        } else {
            lemma_next_char(word, '=', 0);
            let e = next_char(word, '=', 0);
            assert(word[9] == '=');
            assert forall|x: int| 0 <= x < 9 implies #[trigger] word[x] != '=' by {
                assert(word[x] == "--message="@[x]);
            }
            assert(e == 9);
            assert(flag_part(word) =~= "--message"@);
            if external_flag("--message"@) {
                lemma_external_dash("--message"@);
            }
        }
    }
    lemma_no_external(ts, 0);
    assert(heredoc_of(message) is None);
    assert(shown_value(ts, f) == message);
}

/// Where the text comes from elsewhere there is nothing to edit, and that is told: a
/// commit or a new pull request with `-F`, `--file`, `--body-file`, `-C`, `--reuse-message`,
/// `--fill`, `--fill-first`, `--fill-verbose` or `--template`, with or without a value behind
/// an equals sign.
pub proof fn text_from_elsewhere_cannot_be_edited(
    ws: Seq<Seq<char>>,
    k: int,
    flag: Seq<char>,
    value: Seq<char>,
    args: JsonV,
)
    requires
        0 <= k < ws.len(),
        flag == "-F"@ || flag == "--file"@ || flag == "--body-file"@ || flag == "-C"@ || flag
            == "--reuse-message"@ || flag == "--fill"@ || flag == "--fill-first"@ || flag
            == "--fill-verbose"@ || flag == "--template"@,
        ws[k] == flag || ws[k] == flag + seq!['='] + value,
        runs_command(args, spelled(ws, seq![])),
        ws.len() >= 2 && ws[0] == "git"@ && ws[1] == "commit"@ || ws.len() >= 3 && ws[0] == "gh"@
            && ws[1] == "pr"@ && ws[2] == "create"@,
    ensures
        ws[0] == "git"@ ==> (GitCommitRule.match_of("Bash"@, args) matches Some(m)
            && m.params.len() == 0 && m.note is Some),
        ws[0] == "gh"@ ==> (GhPrCreateRule.match_of("Bash"@, args) matches Some(m)
            && m.params.len() == 0 && m.note is Some),
{
    reveal_strlit("git");
    reveal_strlit("gh");
    assert("git"@.len() == 3 && "gh"@.len() == 2);
    let ts = tokens_of(spelled(ws, seq![]));
    lemma_reads(ws);
    assert(ts[k].text == ws[k]);
    lemma_elsewhere_word(flag, value);
    lemma_some_external(ts, 0, k);
    if ws[0] == "git"@ {
        lemma_commit_runs(ts, ws);
        lemma_one_matching(Gated::Commit, ts);
    } else {
        lemma_create_runs(ts, ws);
        lemma_one_matching(Gated::PrCreate, ts);
    }
}

proof fn lemma_elsewhere_word(flag: Seq<char>, value: Seq<char>)
    requires
        flag == "-F"@ || flag == "--file"@ || flag == "--body-file"@ || flag == "-C"@ || flag
            == "--reuse-message"@ || flag == "--fill"@ || flag == "--fill-first"@ || flag
            == "--fill-verbose"@ || flag == "--template"@,
    ensures
        flag_part(flag) == flag,
        flag_part(flag + seq!['='] + value) == flag,
        external_flag(flag),
{
    reveal_strlit("-F");
    reveal_strlit("--file");
    reveal_strlit("--body-file");
    reveal_strlit("-C");
    reveal_strlit("--reuse-message");
    reveal_strlit("--fill");
    reveal_strlit("--fill-first");
    reveal_strlit("--fill-verbose");
    reveal_strlit("--template");
    assert forall|i: int| 0 <= i < flag.len() implies #[trigger] flag[i] != '=' by {}
    lemma_flag_part(flag);
    let w = flag + seq!['='] + value;
    lemma_next_char(w, '=', 0);
    let e = next_char(w, '=', 0);
    assert(w[flag.len() as int] == '=');
    assert(e == flag.len()) by {
        if e < flag.len() {
            assert(w[e] == flag[e]);
        }
    }
    assert(flag_part(w) =~= flag);
}

/// Several messages in one commit, or a flag in the place of the message, cannot be edited:
/// there is nothing that git would use alone.
pub proof fn an_unclear_message_cannot_be_edited(
    a: Seq<Seq<char>>,
    flag: Seq<char>,
    message: Seq<char>,
    b: Seq<Seq<char>>,
    other: Seq<char>,
    second: Seq<char>,
    c: Seq<Seq<char>>,
    args: JsonV,
)
    requires
        flag == "-m"@ || flag == "--message"@ || flag == "-am"@,
        other == "-m"@ || other == "--message"@ || other == "-am"@,
        runs_command(
            args,
            spelled(
                seq!["git"@, "commit"@] + a + seq![flag, message] + b + seq![other, second] + c,
                seq![],
            ),
        ),
    ensures
        GitCommitRule.match_of("Bash"@, args) matches Some(m) && m.params.len() == 0 && m.note
            is Some,
{
    let ws = seq!["git"@, "commit"@] + a + seq![flag, message] + b + seq![other, second] + c;
    let ts = tokens_of(spelled(ws, seq![]));
    lemma_reads(ws);
    lemma_commit_runs(ts, ws);
    lemma_one_matching(Gated::Commit, ts);
    let m = 2 + a.len() as int;
    let n = m + 2 + b.len();
    let f = message_flag();
    lemma_message_flag();
    assert(ws[m] == flag && ws[n] == other);
    assert(ts[m].text == flag && ts[n].text == other);
    lemma_message_word(flag);
    lemma_message_word(other);
    assert(flag_at(ts, f, m) is Some && flag_at(ts, f, n) is Some);
    lemma_twice(ts, f, m, n, ts.len() as int);
}

proof fn lemma_twice(seg: Seq<TokenV>, f: FlagName, m: int, n: int, k: int)
    requires
        0 <= m < n < seg.len(),
        0 <= k <= seg.len(),
        flag_at(seg, f, m) is Some,
        flag_at(seg, f, n) is Some,
    ensures
        k > m ==> flag_count(seg, f, k) >= 1,
        k > n ==> flag_count(seg, f, k) >= 2,
    decreases k,
{
    if k > 0 {
        lemma_twice(seg, f, m, n, k - 1);
    }
}

/// A message that begins with a dash would be read as a flag: it cannot be edited.
pub proof fn a_flag_for_a_message_cannot_be_edited(
    a: Seq<Seq<char>>,
    flag: Seq<char>,
    next: Seq<char>,
    b: Seq<Seq<char>>,
    args: JsonV,
)
    requires
        flag == "-m"@ || flag == "--message"@ || flag == "-am"@,
        next.len() > 0 && next[0] == '-',
        runs_command(
            args,
            spelled(seq!["git"@, "commit"@] + a + seq![flag, next] + b, seq![]),
        ),
    ensures
        GitCommitRule.match_of("Bash"@, args) matches Some(m) && m.params.len() == 0 && m.note
            is Some,
{
    let ws = seq!["git"@, "commit"@] + a + seq![flag, next] + b;
    let ts = tokens_of(spelled(ws, seq![]));
    lemma_reads(ws);
    lemma_commit_runs(ts, ws);
    lemma_one_matching(Gated::Commit, ts);
    let m = 2 + a.len() as int;
    let f = message_flag();
    lemma_message_word(flag);
    assert(ws[m] == flag && ws[m + 1] == next);
    assert(ts[m].text == flag && ts[m + 1].text == next);
    assert(flag_swallowed(ts, f, m));
    assert(flag_ambiguous(ts, f));
}

// ---------------------------------------------------------------------------
// Pull requests
// ---------------------------------------------------------------------------

proof fn lemma_create_runs(ts: Seq<TokenV>, ws: Seq<Seq<char>>)
    requires
        reads(ts, ws),
        ws.len() >= 3,
        ws[0] == "gh"@,
        ws[1] == "pr"@,
        ws[2] == "create"@,
    ensures
        runs(Gated::PrCreate, ts),
{
    lemma_program_word("gh"@);
    reveal_strlit("pr");
    reveal_strlit("create");
    assert(ts[0].text == "gh"@ && ts[1].text == "pr"@ && ts[2].text == "create"@);
    assert(program_of(ts) == Some(0int));
    assert(next_word(ts, 1) == 1);
    assert(next_word(ts, 2) == 2);
}

/// The flags of a title and of a body are told apart.
proof fn lemma_pr_flags(title: Seq<char>, body: Seq<char>, seg: Seq<TokenV>, m: int, n: int)
    requires
        title == "--title"@ || title == "-t"@,
        body == "--body"@ || body == "-b"@,
        0 <= m < seg.len(),
        0 <= n < seg.len(),
        seg[m].text == title,
        seg[n].text == body,
    ensures
        flag_at(seg, body_flag(), m) is None,
        flag_at(seg, title_flag(), n) is None,
        !takes_next(title, body_flag()),
        !takes_next(body, title_flag()),
        takes_next(title, title_flag()),
        takes_next(body, body_flag()),
        !external_flag(flag_part(title)),
        !external_flag(flag_part(body)),
        "--title"@.len() > 0 && "--title"@[0] == '-',
        "-t"@.len() > 0 && "-t"@[0] == '-',
        "--body"@.len() > 0 && "--body"@[0] == '-',
        "-b"@.len() > 0 && "-b"@[0] == '-',
{
    reveal_strlit("--title");
    reveal_strlit("-t");
    reveal_strlit("--body");
    reveal_strlit("-b");
    let tb = "--body"@.push('=');
    let tt = "--title"@.push('=');
    assert(title.len() > 1 && body.len() > 1);
    assert("--body"@[2] == 'b' && "--title"@[2] == 't' && "-t"@[1] == 't' && "-b"@[1] == 'b');
    if has_prefix(title, tb) {
        assert(title.subrange(0, tb.len() as int)[2] == tb[2]);
    }
    if has_prefix(title, "-b"@) {
        assert(title.subrange(0, 2)[1] == 'b');
    }
    if has_prefix(body, tt) {
        assert(body.subrange(0, tt.len() as int)[2] == tt[2]);
    }
    if has_prefix(body, "-t"@) {
        assert(body.subrange(0, 2)[1] == 't');
    }
    lemma_flag_part(title);
    lemma_flag_part(body);
    assert(!title.contains('='));
    assert(!body.contains('='));
    if external_flag(flag_part(title)) {
        lemma_external_dash(title);
    }
    if external_flag(flag_part(body)) {
        lemma_external_dash(body);
    }
}

/// The title and the body of a new pull request are shown, to be edited: with `--title` or
/// `-t` and `--body` or `-b`, between words that are no flags.
pub proof fn the_title_and_body_are_shown(
    a: Seq<Seq<char>>,
    title_word: Seq<char>,
    title: Seq<char>,
    b: Seq<Seq<char>>,
    body_word: Seq<char>,
    body: Seq<char>,
    c: Seq<Seq<char>>,
    args: JsonV,
)
    requires
        title_word == "--title"@ || title_word == "-t"@,
        body_word == "--body"@ || body_word == "-b"@,
        literal(title),
        literal(body),
        no_flags(a),
        no_flags(b),
        no_flags(c),
        runs_command(
            args,
            spelled(
                seq!["gh"@, "pr"@, "create"@] + a + seq![title_word, title] + b + seq![
                    body_word,
                    body,
                ] + c,
                seq![],
            ),
        ),
    ensures
        GhPrCreateRule.match_of("Bash"@, args) == Some(
            GateMatchV {
                kind: "PR creation"@,
                params: seq![
                    GateParamV {
                        key: "title"@,
                        label: "Title"@,
                        value: title,
                        multiline: false,
                    },
                    GateParamV { key: "body"@, label: "Body"@, value: body, multiline: true },
                ],
                note: None,
            },
        ),
{
    let ws = seq!["gh"@, "pr"@, "create"@] + a + seq![title_word, title] + b + seq![
        body_word,
        body,
    ] + c;
    let ts = tokens_of(spelled(ws, seq![]));
    lemma_reads(ws);
    lemma_create_runs(ts, ws);
    lemma_one_matching(Gated::PrCreate, ts);
    let m = 3 + a.len() as int;
    let n = m + 2 + b.len();
    let tf = title_flag();
    let bf = body_flag();
    reveal_strlit("gh");
    reveal_strlit("pr");
    reveal_strlit("create");
    assert(ws[m] == title_word && ws[m + 1] == title && ws[n] == body_word && ws[n + 1] == body);
    assert(ts[m].text == title_word && ts[m + 1].text == title);
    assert(ts[n].text == body_word && ts[n + 1].text == body);
    lemma_pr_flags(title_word, body_word, ts, m, n);
    assert forall|i: int| 0 <= i < ts.len() && i != m && i != n implies ws[i].len() == 0 || (
    #[trigger] ws[i])[0] != '-' by {
        if 3 <= i < m {
            assert(ws[i] == a[i - 3]);
        } else if m + 1 < i < n {
            assert(ws[i] == b[i - m - 2]);
        } else if i > n + 1 {
            assert(ws[i] == c[i - n - 2]);
        }
    }
    assert forall|i: int| 0 <= i < ts.len() && i != m implies #[trigger] flag_at(ts, tf, i) is None
        && !takes_next(ts[i].text, tf) by {
        assert(ts[i].text == ws[i]);
        if i != n {
            lemma_no_flag(ts, tf, i);
        }
    }
    assert forall|i: int| 0 <= i < ts.len() && i != n implies #[trigger] flag_at(ts, bf, i) is None
        && !takes_next(ts[i].text, bf) by {
        assert(ts[i].text == ws[i]);
        if i != m {
            lemma_no_flag(ts, bf, i);
        }
    }
    assert(flag_at(ts, tf, m) matches Some(hit) && hit.value == title);
    assert(flag_at(ts, bf, n) matches Some(hit) && hit.value == body);
    lemma_once(ts, tf, m, ts.len() as int);
    lemma_once(ts, bf, n, ts.len() as int);
    assert(!flag_swallowed(ts, tf, m));
    assert(!flag_swallowed(ts, bf, n));
    assert(!flag_ambiguous(ts, tf)) by {
        if flag_ambiguous(ts, tf) {
            let i = choose|i: int| 0 <= i < ts.len() && #[trigger] flag_swallowed(ts, tf, i);
            if i != m {
                assert(flag_at(ts, tf, i) is None);
            }
        }
    }
    assert(!flag_ambiguous(ts, bf)) by {
        if flag_ambiguous(ts, bf) {
            let i = choose|i: int| 0 <= i < ts.len() && #[trigger] flag_swallowed(ts, bf, i);
            if i != n {
                assert(flag_at(ts, bf, i) is None);
            }
        }
    }
    assert forall|k: int| 0 <= k < ts.len() implies !external_flag(
        flag_part((#[trigger] ts[k]).text),
    ) by {
        if k != m && k != n {
            assert(ts[k].text == ws[k]);
            lemma_word_not_external(ws[k]);
        }
    }
    lemma_no_external(ts, 0);
    assert(heredoc_of(title) is None && heredoc_of(body) is None);
    assert(shown_value(ts, tf) == title);
    assert(shown_value(ts, bf) == body);
}

} // verus!
