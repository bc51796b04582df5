//! Built-in gate rules. They match on the `Bash` tool's `command` string.
use crate::clip::{chars_within, head_end};
use crate::gate::shell::{
    heredoc_of, quoted, sh_quote, substituted, tokenize, tokens_of, toks, unwrap_heredoc,
    unwrap_substitution, Token, TokenV,
};
use crate::json::{member, text_in, with_member, Json, JsonV};
use crate::text::{
    ascii_alnum, chars_of, decimal, decimal_text, ends_with, find_char, has_prefix, has_suffix,
    is_ascii_alnum, is_ascii_digit, next_char, part_of, same_text, starts_with, string_of, text_of,
    trim, trimmed, views,
};
use vstd::prelude::*;
use vstd::slice::*;
use vstd::string::*;

verus! {

/// One user-editable value extracted from a gated command (the commit message, or the
/// PR title and body).
#[derive(Debug)]
pub struct GateParam {
    pub key: String,
    pub label: String,
    pub value: String,
    pub multiline: bool,
}

/// Successful match: what kind of operation was caught and which params the user may
/// edit before approval.
#[derive(Debug)]
pub struct GateMatch {
    /// Human-readable label shown in the dialog ("git push", "PR creation", …).
    pub kind: String,
    pub params: Vec<GateParam>,
    /// Set when a gate is deliberately not editable: the dialog then shows the raw
    /// command with Allow/Deny and this explanation.
    pub note: Option<String>,
}

pub struct GateParamV {
    pub key: Seq<char>,
    pub label: Seq<char>,
    pub value: Seq<char>,
    pub multiline: bool,
}

pub struct GateMatchV {
    pub kind: Seq<char>,
    pub params: Seq<GateParamV>,
    pub note: Option<Seq<char>>,
}

impl View for GateParam {
    type V = GateParamV;

    open spec fn view(&self) -> GateParamV {
        GateParamV {
            key: self.key@,
            label: self.label@,
            value: self.value@,
            multiline: self.multiline,
        }
    }
}

pub open spec fn params_view(p: Seq<GateParam>) -> Seq<GateParamV> {
    p.map_values(|x: GateParam| x@)
}

impl View for GateMatch {
    type V = GateMatchV;

    open spec fn view(&self) -> GateMatchV {
        GateMatchV {
            kind: self.kind@,
            params: params_view(self.params@),
            note: crate::text::opt_view(self.note),
        }
    }
}

pub open spec fn opt_match_view(m: Option<GateMatch>) -> Option<GateMatchV> {
    match m {
        Some(m) => Some(m@),
        None => None,
    }
}

pub fn copy_params(p: &Vec<GateParam>) -> (r: Vec<GateParam>)
    ensures
        params_view(r@) == params_view(p@),
{
    let mut r: Vec<GateParam> = Vec::new();
    let mut i: usize = 0;
    while i < p.len()
        invariant
            i <= p@.len(),
            params_view(r@) == params_view(p@.take(i as int)),
        decreases p@.len() - i,
    {
        let ghost done = params_view(r@);
        r.push(
            GateParam {
                key: text_of(p[i].key.as_str()),
                label: text_of(p[i].label.as_str()),
                value: text_of(p[i].value.as_str()),
                multiline: p[i].multiline,
            },
        );
        assert(params_view(r@) =~= done.push(p@[i as int]@));
        assert(params_view(p@.take(i + 1)) =~= done.push(p@[i as int]@));
        i += 1;
    }
    assert(p@.take(i as int) =~= p@);
    r
}

// ---------------------------------------------------------------------------
// Segments and programs
// ---------------------------------------------------------------------------

/// The first separator from `i` on; the number of tokens if there is none.
pub open spec fn next_separator(ts: Seq<TokenV>, i: int) -> int
    decreases ts.len() - i,
{
    if i < 0 || i >= ts.len() {
        ts.len() as int
    } else if ts[i].is_separator {
        i
    } else {
        next_separator(ts, i + 1)
    }
}

/// The command segments of `ts[i..]`: the non-empty runs between separators.
pub open spec fn segments_from(ts: Seq<TokenV>, i: int) -> Seq<Seq<TokenV>>
    decreases ts.len() - i,
{
    let j = next_separator(ts, i);
    let rest = if 0 <= i <= j < ts.len() {
        segments_from(ts, j + 1)
    } else {
        seq![]
    };
    if i < j {
        seq![ts.subrange(i, j)] + rest
    } else {
        rest
    }
}

/// The command segments of a token sequence.
pub open spec fn segments(ts: Seq<TokenV>) -> Seq<Seq<TokenV>> {
    segments_from(ts, 0)
}

pub open spec fn segs_view(v: Seq<&[Token]>) -> Seq<Seq<TokenV>> {
    v.map_values(|s: &[Token]| toks(s@))
}

/// Command segments: token runs between separators.
pub fn split_commands<'a>(tokens: &'a [Token]) -> (r: Vec<&'a [Token]>)
    ensures
        segs_view(r@) == segments(toks(tokens@)),
{
    let mut r: Vec<&'a [Token]> = Vec::new();
    let mut i: usize = 0;
    let ghost ts = toks(tokens@);
    assert(segs_view(r@) + segments_from(ts, 0) =~= segments(ts));
    loop
        invariant
            i <= tokens@.len(),
            ts == toks(tokens@),
            segs_view(r@) + segments_from(ts, i as int) == segments(ts),
        decreases tokens@.len() - i,
    {
        let mut j: usize = i;
        while j < tokens.len() && !tokens[j].is_separator
            invariant
                i <= j <= tokens@.len(),
                ts == toks(tokens@),
                next_separator(ts, j as int) == next_separator(ts, i as int),
            decreases tokens@.len() - j,
        {
            j += 1;
        }
        let ghost before = segs_view(r@);
        if i < j {
            let piece: &'a [Token] = slice_subrange(tokens, i, j);
            assert(toks(piece@) =~= ts.subrange(i as int, j as int));
            r.push(piece);
            assert(segs_view(r@) =~= before.push(ts.subrange(i as int, j as int)));
        }
        if j == tokens.len() {
            assert(before + segments_from(ts, i as int) =~= segs_view(r@));
            return r;
        }
        assert(before + segments_from(ts, i as int) =~= segs_view(r@) + segments_from(ts, j + 1));
        i = j + 1;
    }
}

/// The position after the last slash or backslash in `s[..j]`.
pub open spec fn after_slash(s: Seq<char>, j: int) -> int
    decreases j,
{
    if j <= 0 || j > s.len() {
        0
    } else if s[j - 1] == '/' || s[j - 1] == '\\' {
        j
    } else {
        after_slash(s, j - 1)
    }
}

/// A program's name without its directory.
pub open spec fn basename(s: Seq<char>) -> Seq<char> {
    s.subrange(after_slash(s, s.len() as int), s.len() as int)
}

/// Program name without its directory (`/usr/bin/git` → `git`).
pub fn program_basename(text: &str) -> (r: String)
    ensures
        r@ == basename(text@),
{
    let v: Vec<char> = chars_of(text);
    let mut j: usize = v.len();
    while j > 0 && v[j - 1] != '/' && v[j - 1] != '\\'
        invariant
            j <= v@.len(),
            after_slash(v@, j as int) == after_slash(v@, v@.len() as int),
        decreases j,
    {
        j -= 1;
    }
    part_of(v.as_slice(), j, v.len())
}

pub open spec fn name_char(c: char) -> bool {
    is_ascii_alnum(c) || c == '_'
}

/// Whether `s` reads `NAME=…`, an environment assignment before a program's name.
pub open spec fn is_assignment(s: Seq<char>) -> bool {
    let e = next_char(s, '=', 0);
    &&& e < s.len()
    &&& 0 < e
    &&& !is_ascii_digit(s[0])
    &&& forall|i: int| 0 <= i < e ==> name_char(#[trigger] s[i])
}

fn looks_like_assignment(text: &str) -> (b: bool)
    ensures
        b == is_assignment(text@),
{
    let v: Vec<char> = chars_of(text);
    let e: usize = find_char(v.as_slice(), '=', 0);
    if e == v.len() || e == 0 {
        return false;
    }
    if '0' <= v[0] && v[0] <= '9' {
        return false;
    }
    let mut i: usize = 0;
    while i < e
        invariant
            i <= e < v@.len(),
            v@ == text@,
            e == next_char(v@, '=', 0),
            forall|k: int| 0 <= k < i ==> name_char(#[trigger] v@[k]),
        decreases e - i,
    {
        if !(ascii_alnum(v[i]) || v[i] == '_') {
            assert(!name_char(v@[i as int]));
            return false;
        }
        i += 1;
    }
    true
}

/// Words that merely prefix another command; the real program follows them.
pub open spec fn wrapper_word(w: Seq<char>) -> bool {
    ||| w == "command"@
    ||| w == "env"@
    ||| w == "time"@
    ||| w == "nohup"@
    ||| w == "exec"@
    ||| w == "sudo"@
    ||| w == "stdbuf"@
    ||| w == "then"@
    ||| w == "else"@
    ||| w == "do"@
    ||| w == "elif"@
}

/// Grouping and no-op tokens that can precede a command inside a segment.
pub open spec fn grouping_token(w: Seq<char>) -> bool {
    w == "("@ || w == ")"@ || w == "{"@ || w == "}"@ || w == "!"@
}

/// Shells whose `-c <string>` argument is itself a command line.
pub open spec fn shell_program(w: Seq<char>) -> bool {
    w == "sh"@ || w == "bash"@ || w == "zsh"@ || w == "dash"@ || w == "ksh"@
}

/// Whether a word in front of a segment is not yet the program.
pub open spec fn before_program(w: Seq<char>) -> bool {
    is_assignment(w) || grouping_token(w) || wrapper_word(basename(w))
}

fn is_before_program(text: &str) -> (b: bool)
    ensures
        b == before_program(text@),
{
    if looks_like_assignment(text) {
        return true;
    }
    if same_text(text, "(") || same_text(text, ")") || same_text(text, "{") || same_text(text, "}")
        || same_text(text, "!") {
        return true;
    }
    let base: String = program_basename(text);
    let w: &str = base.as_str();
    same_text(w, "command") || same_text(w, "env") || same_text(w, "time") || same_text(w, "nohup")
        || same_text(w, "exec") || same_text(w, "sudo") || same_text(w, "stdbuf") || same_text(
        w,
        "then",
    ) || same_text(w, "else") || same_text(w, "do") || same_text(w, "elif")
}

/// Where the program's name stands in `seg[i..]`.
pub open spec fn program_from(seg: Seq<TokenV>, i: int) -> Option<int>
    decreases seg.len() - i,
{
    if i < 0 || i >= seg.len() {
        None
    } else if before_program(seg[i].text) {
        program_from(seg, i + 1)
    } else {
        Some(i)
    }
}

/// Where the program's name stands in a segment.
pub open spec fn program_of(seg: Seq<TokenV>) -> Option<int> {
    program_from(seg, 0)
}

pub proof fn lemma_program_from(seg: Seq<TokenV>, i: int)
    requires
        0 <= i,
    ensures
        program_from(seg, i) matches Some(k) ==> i <= k < seg.len(),
    decreases seg.len() - i,
{
    if i < seg.len() && before_program(seg[i].text) {
        lemma_program_from(seg, i + 1);
    }
}

/// Index of the program name in a segment, skipping `VAR=value` prefixes, grouping
/// tokens and wrapper words (`env`, `command`, `then`, …). Fail-closed: the point is
/// that `command git push` and `(git push)` are still gated.
fn program_index(seg: &[Token]) -> (r: Option<usize>)
    ensures
        match r {
            Some(k) => program_of(toks(seg@)) == Some(k as int) && k < seg@.len(),
            None => program_of(toks(seg@)) is None,
        },
{
    let ghost ts = toks(seg@);
    let mut i: usize = 0;
    while i < seg.len()
        invariant
            i <= seg@.len(),
            ts == toks(seg@),
            program_from(ts, i as int) == program_of(ts),
        decreases seg@.len() - i,
    {
        assert(ts[i as int].text == seg@[i as int].text@);
        if !is_before_program(seg[i].text.as_str()) {
            return Some(i);
        }
        i += 1;
    }
    None
}

/// The first token from `i` on whose text is `w`; the length if there is none.
pub open spec fn next_text(seg: Seq<TokenV>, w: Seq<char>, i: int) -> int
    decreases seg.len() - i,
{
    if i < 0 || i >= seg.len() {
        seg.len() as int
    } else if seg[i].text == w {
        i
    } else {
        next_text(seg, w, i + 1)
    }
}

pub open spec fn texts_of(seg: Seq<TokenV>) -> Seq<Seq<char>> {
    seg.map_values(|t: TokenV| t.text)
}

/// The command strings handed to a shell or to `eval` in a segment.
pub open spec fn script_commands(seg: Seq<TokenV>, program: int) -> Seq<Seq<char>> {
    let name = basename(seg[program].text);
    if shell_program(name) {
        let c = next_text(seg, "-c"@, program + 1);
        if c + 1 < seg.len() {
            seq![seg[c + 1].text]
        } else {
            seq![]
        }
    } else if name == "eval"@ {
        texts_of(seg.subrange(program + 1, seg.len() as int))
    } else {
        seq![]
    }
}

/// What stands between two backticks around a text.
pub open spec fn backticked(s: Seq<char>) -> Option<Seq<char>> {
    if s.len() >= 2 && s[0] == '`' && s[s.len() - 1] == '`' {
        Some(s.subrange(1, s.len() - 1))
    } else {
        None
    }
}

/// The command inside a `$(…)` or backtick word.
pub open spec fn inner_command(text: Seq<char>) -> Option<Seq<char>> {
    match substituted(trim(text)) {
        Some(inner) => Some(inner),
        None => backticked(trim(text)),
    }
}

pub open spec fn inner_commands(seg: Seq<TokenV>) -> Seq<Seq<char>>
    decreases seg.len(),
{
    if seg.len() == 0 {
        seq![]
    } else {
        let before = inner_commands(seg.drop_last());
        match inner_command(seg.last().text) {
            Some(inner) => before.push(inner),
            None => before,
        }
    }
}

/// The command strings inside a segment: `sh -c "<cmd>"`, `eval "<cmd>"`, and every
/// `$(…)` or backtick word.
pub open spec fn nested_of(seg: Seq<TokenV>) -> Seq<Seq<char>> {
    match program_of(seg) {
        None => seq![],
        Some(p) => script_commands(seg, p) + inner_commands(seg),
    }
}

fn inner_of(text: &str) -> (r: Option<String>)
    ensures
        match r {
            Some(t) => inner_command(text@) == Some(t@),
            None => inner_command(text@) is None,
        },
{
    let v: Vec<char> = chars_of(text);
    let s: &[char] = trimmed(v.as_slice());
    match unwrap_substitution(s) {
        Some(t) => Some(string_of(t)),
        None => {
            if s.len() >= 2 && s[0] == '`' && s[s.len() - 1] == '`' {
                Some(part_of(s, 1, s.len() - 1))
            } else {
                None
            }
        },
    }
}

/// Nested command strings inside `segment`. Used to look for gated commands one level
/// down; matches found there are never editable.
pub fn nested_commands(seg: &[Token]) -> (r: Vec<String>)
    ensures
        views(r@) == nested_of(toks(seg@)),
{
    let ghost ts = toks(seg@);
    let mut out: Vec<String> = Vec::new();
    assert(views(out@) =~= seq![]);
    let program: usize = match program_index(seg) {
        Some(p) => p,
        None => return out,
    };
    let name: String = program_basename(seg[program].text.as_str());
    let n: &str = name.as_str();
    assert(ts[program as int].text == seg@[program as int].text@);
    if same_text(n, "sh") || same_text(n, "bash") || same_text(n, "zsh") || same_text(n, "dash")
        || same_text(n, "ksh") {
        let mut i: usize = program + 1;
        while i < seg.len() && !same_text(seg[i].text.as_str(), "-c")
            invariant
                program < i <= seg@.len(),
                ts == toks(seg@),
                next_text(ts, "-c"@, i as int) == next_text(ts, "-c"@, program + 1),
            decreases seg@.len() - i,
        {
            assert(ts[i as int].text == seg@[i as int].text@);
            i += 1;
        }
        if i < seg.len() {
            assert(ts[i as int].text == seg@[i as int].text@);
        }
        if i < seg.len() && seg.len() - i > 1 {
            out.push(text_of(seg[i + 1].text.as_str()));
            assert(views(out@) =~= seq![ts[i + 1].text]);
        }
        assert(views(out@) =~= script_commands(ts, program as int));
    } else if same_text(n, "eval") {
        let mut i: usize = program + 1;
        while i < seg.len()
            invariant
                program < i <= seg@.len(),
                ts == toks(seg@),
                views(out@) == texts_of(ts.subrange(program + 1, i as int)),
            decreases seg@.len() - i,
        {
            let ghost done = views(out@);
            out.push(text_of(seg[i].text.as_str()));
            assert(views(out@) =~= done.push(ts[i as int].text));
            assert(texts_of(ts.subrange(program + 1, i + 1)) =~= done.push(ts[i as int].text));
            i += 1;
        }
        assert(ts.subrange(program + 1, i as int) =~= ts.subrange(program + 1, ts.len() as int));
    }
    let ghost scripts = views(out@);
    assert(scripts =~= script_commands(ts, program as int));
    let mut i: usize = 0;
    assert(scripts + inner_commands(ts.take(0)) =~= scripts);
    while i < seg.len()
        invariant
            i <= seg@.len(),
            ts == toks(seg@),
            views(out@) == scripts + inner_commands(ts.take(i as int)),
        decreases seg@.len() - i,
    {
        let ghost done = views(out@);
        assert(ts.take(i + 1).drop_last() =~= ts.take(i as int));
        assert(ts.take(i + 1).last().text == seg@[i as int].text@);
        match inner_of(seg[i].text.as_str()) {
            Some(inner) => {
                let ghost v = inner@;
                out.push(inner);
                assert(views(out@) =~= done.push(v));
                assert(views(out@) =~= scripts + inner_commands(ts.take(i + 1)));
            },
            None => {},
        }
        i += 1;
    }
    assert(ts.take(i as int) =~= ts);
    out
}

// ---------------------------------------------------------------------------
// The gated commands
// ---------------------------------------------------------------------------

pub open spec fn is_flag(w: Seq<char>) -> bool {
    w.len() > 0 && w[0] == '-'
}

fn flag_word(text: &str) -> (b: bool)
    ensures
        b == is_flag(text@),
{
    let v: Vec<char> = chars_of(text);
    v.len() > 0 && v[0] == '-'
}

/// Git global flags that take a separate value argument.
pub open spec fn git_value_flag(w: Seq<char>) -> bool {
    w == "-C"@ || w == "-c"@ || w == "--git-dir"@ || w == "--work-tree"@ || w == "--namespace"@
}

/// Where git's subcommand stands in `seg[i..]`, behind its global flags.
pub open spec fn subcommand_from(seg: Seq<TokenV>, i: int) -> Option<int>
    decreases seg.len() - i,
{
    if i < 0 || i >= seg.len() {
        None
    } else if !is_flag(seg[i].text) {
        Some(i)
    } else if git_value_flag(seg[i].text) {
        if i + 2 <= seg.len() {
            subcommand_from(seg, i + 2)
        } else {
            None
        }
    } else {
        subcommand_from(seg, i + 1)
    }
}

/// The text of the git subcommand that a segment runs.
pub open spec fn git_runs(seg: Seq<TokenV>) -> Option<Seq<char>> {
    match program_of(seg) {
        Some(p) => if basename(seg[p].text) == "git"@ {
            match subcommand_from(seg, p + 1) {
                Some(k) => Some(seg[k].text),
                None => None,
            }
        } else {
            None
        },
        None => None,
    }
}

/// Index of the git subcommand token, skipping global flags (`git -C x push`).
fn git_subcommand(seg: &[Token]) -> (r: Option<usize>)
    ensures
        match r {
            Some(k) => k < seg@.len() && git_runs(toks(seg@)) == Some(seg@[k as int].text@),
            None => git_runs(toks(seg@)) is None,
        },
{
    let ghost ts = toks(seg@);
    let program: usize = match program_index(seg) {
        Some(p) => p,
        None => return None,
    };
    assert(ts[program as int].text == seg@[program as int].text@);
    let name: String = program_basename(seg[program].text.as_str());
    if !same_text(name.as_str(), "git") {
        return None;
    }
    let mut i: usize = program + 1;
    while i < seg.len()
        invariant
            program < i <= seg@.len(),
            ts == toks(seg@),
            program_of(ts) == Some(program as int),
            basename(ts[program as int].text) == "git"@,
            subcommand_from(ts, i as int) == subcommand_from(ts, program + 1),
        decreases seg@.len() - i,
    {
        let text: &str = seg[i].text.as_str();
        assert(ts[i as int].text == seg@[i as int].text@);
        if !flag_word(text) {
            return Some(i);
        }
        if same_text(text, "-C") || same_text(text, "-c") || same_text(text, "--git-dir")
            || same_text(text, "--work-tree") || same_text(text, "--namespace") {
            if seg.len() - i < 2 {
                return None;
            }
            i += 2;
        } else {
            i += 1;
        }
    }
    None
}

/// The first word from `i` on that is no flag; the length if there is none.
pub open spec fn next_word(seg: Seq<TokenV>, i: int) -> int
    decreases seg.len() - i,
{
    if i < 0 || i >= seg.len() {
        seg.len() as int
    } else if is_flag(seg[i].text) {
        next_word(seg, i + 1)
    } else {
        i
    }
}

/// Whether a segment runs `gh pr create`.
pub open spec fn runs_pr_create(seg: Seq<TokenV>) -> bool {
    match program_of(seg) {
        Some(p) => {
            let a = next_word(seg, p + 1);
            let b = next_word(seg, a + 1);
            &&& basename(seg[p].text) == "gh"@
            &&& a < seg.len()
            &&& seg[a].text == "pr"@
            &&& b < seg.len()
            &&& seg[b].text == "create"@
        },
        None => false,
    }
}

fn word_after(seg: &[Token], from: usize) -> (r: usize)
    requires
        from <= seg@.len(),
    ensures
        r == next_word(toks(seg@), from as int),
        from <= r <= seg@.len(),
{
    let ghost ts = toks(seg@);
    let mut i: usize = from;
    while i < seg.len() && flag_word(seg[i].text.as_str())
        invariant
            from <= i <= seg@.len(),
            ts == toks(seg@),
            next_word(ts, i as int) == next_word(ts, from as int),
        decreases seg@.len() - i,
    {
        assert(ts[i as int].text == seg@[i as int].text@);
        i += 1;
    }
    if i < seg.len() {
        assert(ts[i as int].text == seg@[i as int].text@);
    }
    i
}

fn is_gh_pr_create(seg: &[Token]) -> (b: bool)
    ensures
        b == runs_pr_create(toks(seg@)),
{
    let ghost ts = toks(seg@);
    let program: usize = match program_index(seg) {
        Some(p) => p,
        None => return false,
    };
    assert(ts[program as int].text == seg@[program as int].text@);
    let name: String = program_basename(seg[program].text.as_str());
    if !same_text(name.as_str(), "gh") {
        return false;
    }
    let a: usize = word_after(seg, program + 1);
    if a == seg.len() {
        return false;
    }
    assert(ts[a as int].text == seg@[a as int].text@);
    if !same_text(seg[a].text.as_str(), "pr") {
        return false;
    }
    let b: usize = word_after(seg, a + 1);
    if b == seg.len() {
        return false;
    }
    assert(ts[b as int].text == seg@[b as int].text@);
    same_text(seg[b].text.as_str(), "create")
}

/// The operations that the built-in rules gate.
#[derive(Clone, Copy, Debug, PartialEq, Eq, Structural)]
pub enum Gated {
    Push,
    PrCreate,
    Commit,
}

/// Whether a segment runs the operation.
pub open spec fn runs(op: Gated, seg: Seq<TokenV>) -> bool {
    match op {
        Gated::Push => git_runs(seg) == Some("push"@),
        Gated::PrCreate => runs_pr_create(seg),
        Gated::Commit => git_runs(seg) == Some("commit"@),
    }
}

fn segment_runs(op: Gated, seg: &[Token]) -> (b: bool)
    ensures
        b == runs(op, toks(seg@)),
{
    match op {
        Gated::Push => match git_subcommand(seg) {
            Some(k) => same_text(seg[k].text.as_str(), "push"),
            None => false,
        },
        Gated::PrCreate => is_gh_pr_create(seg),
        Gated::Commit => match git_subcommand(seg) {
            Some(k) => same_text(seg[k].text.as_str(), "commit"),
            None => false,
        },
    }
}

/// Recursion depth for nested command strings (`sh -c "sh -c '…'"`).
pub const MAX_NESTING: usize = 3;

/// Whether any segment of `command`, also inside `sh -c`, `eval`, `$(…)` or backticks up
/// to `depth` levels down, runs the operation.
pub open spec fn runs_anywhere(op: Gated, command: Seq<char>, depth: nat) -> bool
    decreases depth, 1nat,
{
    let segs = segments(tokens_of(command));
    ||| exists|i: int| 0 <= i < segs.len() && runs(op, #[trigger] segs[i])
    ||| depth > 0 && exists|i: int| 0 <= i < segs.len() && runs_inside(
        op,
        #[trigger] nested_of(segs[i]),
        (depth - 1) as nat,
    )
}

/// Whether one of the command strings runs the operation.
pub open spec fn runs_inside(op: Gated, inner: Seq<Seq<char>>, depth: nat) -> bool
    decreases depth, 2nat,
{
    exists|k: int| 0 <= k < inner.len() && runs_anywhere(op, #[trigger] inner[k], depth)
}

fn any_segment_nested(op: Gated, command: &str, depth: usize) -> (b: bool)
    ensures
        b == runs_anywhere(op, command@, depth as nat),
    decreases depth,
{
    let tokens: Vec<Token> = tokenize(command);
    let segs: Vec<&[Token]> = split_commands(tokens.as_slice());
    let ghost sv = segments(tokens_of(command@));
    let mut i: usize = 0;
    while i < segs.len()
        invariant
            i <= segs@.len(),
            sv == segs_view(segs@),
            sv == segments(tokens_of(command@)),
            forall|k: int| 0 <= k < i ==> !runs(op, #[trigger] sv[k]),
        decreases segs@.len() - i,
    {
        if segment_runs(op, segs[i]) {
            assert(runs(op, sv[i as int]));
            return true;
        }
        i += 1;
    }
    if depth == 0 {
        return false;
    }
    let mut i: usize = 0;
    while i < segs.len()
        invariant
            i <= segs@.len(),
            depth > 0,
            sv == segs_view(segs@),
            sv == segments(tokens_of(command@)),
            forall|k: int| 0 <= k < i ==> !runs_inside(
                op,
                #[trigger] nested_of(sv[k]),
                (depth - 1) as nat,
            ),
        decreases segs@.len() - i,
    {
        let inner: Vec<String> = nested_commands(segs[i]);
        let ghost iv = views(inner@);
        assert(iv == nested_of(sv[i as int]));
        let mut k: usize = 0;
        while k < inner.len()
            invariant
                k <= inner@.len(),
                i < segs@.len(),
                depth > 0,
                sv == segs_view(segs@),
                sv == segments(tokens_of(command@)),
                iv == views(inner@),
                iv == nested_of(sv[i as int]),
                forall|m: int| 0 <= m < k ==> !runs_anywhere(
                    op,
                    #[trigger] iv[m],
                    (depth - 1) as nat,
                ),
            decreases inner@.len() - k,
        {
            if any_segment_nested(op, inner[k].as_str(), depth - 1) {
                assert(runs_anywhere(op, iv[k as int], (depth - 1) as nat));
                assert(runs_inside(op, nested_of(sv[i as int]), (depth - 1) as nat));
                return true;
            }
            k += 1;
        }
        i += 1;
    }
    false
}

/// The segments that run the operation at the top level, where splicing is safe.
pub open spec fn matching(op: Gated, segs: Seq<Seq<TokenV>>) -> Seq<Seq<TokenV>>
    decreases segs.len(),
{
    if segs.len() == 0 {
        seq![]
    } else if runs(op, segs.last()) {
        matching(op, segs.drop_last()).push(segs.last())
    } else {
        matching(op, segs.drop_last())
    }
}

fn top_level_segments<'a>(op: Gated, tokens: &'a [Token]) -> (r: Vec<&'a [Token]>)
    ensures
        segs_view(r@) == matching(op, segments(toks(tokens@))),
{
    let segs: Vec<&'a [Token]> = split_commands(tokens);
    let ghost sv = segs_view(segs@);
    let mut r: Vec<&'a [Token]> = Vec::new();
    let mut i: usize = 0;
    assert(segs_view(r@) =~= matching(op, sv.take(0)));
    while i < segs.len()
        invariant
            i <= segs@.len(),
            sv == segs_view(segs@),
            segs_view(r@) == matching(op, sv.take(i as int)),
        decreases segs@.len() - i,
    {
        let ghost done = segs_view(r@);
        assert(sv.take(i + 1).drop_last() =~= sv.take(i as int));
        assert(sv.take(i + 1).last() == toks(segs@[i as int]@));
        if segment_runs(op, segs[i]) {
            r.push(segs[i]);
            assert(segs_view(r@) =~= done.push(sv[i as int]));
        }
        i += 1;
    }
    assert(sv.take(i as int) =~= sv);
    r
}

// ---------------------------------------------------------------------------
// Flags
// ---------------------------------------------------------------------------

/// Where a flag's value lives, for replacement.
#[derive(Debug)]
pub struct FlagHit {
    pub value: String,
    /// Bytes of the command to replace.
    pub start: usize,
    pub end: usize,
    /// Kept in front of the re-quoted value (`--title=` or `-m`); empty when the value is
    /// its own token.
    pub prefix: String,
}

pub struct FlagHitV {
    pub value: Seq<char>,
    pub start: int,
    pub end: int,
    pub prefix: Seq<char>,
}

impl View for FlagHit {
    type V = FlagHitV;

    open spec fn view(&self) -> FlagHitV {
        FlagHitV {
            value: self.value@,
            start: self.start as int,
            end: self.end as int,
            prefix: self.prefix@,
        }
    }
}

/// A flag to look for: its long and short form, and whether the short one may end a
/// cluster of short flags.
pub struct FlagName {
    pub long: &'static str,
    pub short: &'static str,
    pub cluster: bool,
}

/// `s` without its leading dashes.
pub open spec fn without_dashes(s: Seq<char>) -> Seq<char>
    decreases s.len(),
{
    if s.len() > 0 && s[0] == '-' {
        without_dashes(s.subrange(1, s.len() as int))
    } else {
        s
    }
}

/// The hit that takes the following token as the value.
pub open spec fn next_token_hit(seg: Seq<TokenV>, i: int) -> Option<FlagHitV> {
    if i + 1 < seg.len() {
        Some(
            FlagHitV {
                value: seg[i + 1].text,
                start: seg[i + 1].start,
                end: seg[i + 1].end,
                prefix: seq![],
            },
        )
    } else {
        None
    }
}

/// The hit that takes the rest of the flag's own token, behind `prefix`, as the value.
pub open spec fn own_token_hit(t: TokenV, prefix: Seq<char>) -> FlagHitV {
    FlagHitV {
        value: t.text.subrange(prefix.len() as int, t.text.len() as int),
        start: t.start,
        end: t.end,
        prefix,
    }
}

/// Whether `w` is a cluster of short flags that ends with `short`'s letter.
pub open spec fn is_cluster(w: Seq<char>, short: Seq<char>) -> bool {
    &&& w.len() > 2
    &&& w[0] == '-'
    &&& has_suffix(w, without_dashes(short))
    &&& forall|i: int| 1 <= i < w.len() ==> is_ascii_alnum(#[trigger] w[i])
}

/// What token `i` contributes: `--flag value`, `--flag=value`, `-f value`, `-f=value`,
/// `-fvalue` and, for a clustering flag, `-af value`.
pub open spec fn flag_at(seg: Seq<TokenV>, f: FlagName, i: int) -> Option<FlagHitV> {
    let w = seg[i].text;
    let long = f.long@;
    let short = f.short@;
    if w == long || w == short {
        next_token_hit(seg, i)
    } else if has_prefix(w, long.push('=')) {
        Some(own_token_hit(seg[i], long.push('=')))
    } else if has_prefix(w, short) && w.len() > short.len() {
        if has_prefix(w, short.push('=')) {
            Some(own_token_hit(seg[i], short.push('=')))
        } else {
            Some(own_token_hit(seg[i], short))
        }
    } else if f.cluster && is_cluster(w, short) {
        next_token_hit(seg, i)
    } else {
        None
    }
}

/// Whether a word takes the next one for the flag's value.
pub open spec fn takes_next(w: Seq<char>, f: FlagName) -> bool {
    let long = f.long@;
    let short = f.short@;
    ||| w == long
    ||| w == short
    ||| !has_prefix(w, long.push('=')) && !has_prefix(w, short) && f.cluster && is_cluster(
        w,
        short,
    )
}

/// Whether token `i` takes the next one for the flag's value and that looks like another
/// flag.
pub open spec fn flag_swallowed(seg: Seq<TokenV>, f: FlagName, i: int) -> bool {
    takes_next(seg[i].text, f) && i + 1 < seg.len() && is_flag(seg[i + 1].text)
}

/// How often the flag occurs with a value among the first `n` tokens.
pub open spec fn flag_count(seg: Seq<TokenV>, f: FlagName, n: int) -> nat
    decreases n,
{
    if n <= 0 {
        0
    } else {
        flag_count(seg, f, n - 1) + if flag_at(seg, f, n - 1) is Some {
            1nat
        } else {
            0nat
        }
    }
}

/// The last occurrence with a value among the first `n` tokens: the one git and gh use.
pub open spec fn flag_last(seg: Seq<TokenV>, f: FlagName, n: int) -> Option<FlagHitV>
    decreases n,
{
    if n <= 0 {
        None
    } else if flag_at(seg, f, n - 1) is Some {
        flag_at(seg, f, n - 1)
    } else {
        flag_last(seg, f, n - 1)
    }
}

/// Whether some occurrence of the flag has another flag for its value.
pub open spec fn flag_ambiguous(seg: Seq<TokenV>, f: FlagName) -> bool {
    exists|i: int| 0 <= i < seg.len() && #[trigger] flag_swallowed(seg, f, i)
}

pub open spec fn opt_hit_view(h: Option<FlagHit>) -> Option<FlagHitV> {
    match h {
        Some(h) => Some(h@),
        None => None,
    }
}

fn hit_of_next(seg: &[Token], i: usize) -> (r: Option<FlagHit>)
    requires
        i < seg@.len(),
    ensures
        opt_hit_view(r) == next_token_hit(toks(seg@), i as int),
{
    if seg.len() - i > 1 {
        let ghost ts = toks(seg@);
        assert(ts[i + 1] == seg@[i + 1]@);
        Some(
            FlagHit {
                value: text_of(seg[i + 1].text.as_str()),
                start: seg[i + 1].start,
                end: seg[i + 1].end,
                prefix: String::new(),
            },
        )
    } else {
        None
    }
}

fn cluster_of(w: &[char], short: &str) -> (b: bool)
    ensures
        b == is_cluster(w@, short@),
{
    if w.len() <= 2 || w[0] != '-' {
        return false;
    }
    let mut i: usize = 1;
    while i < w.len()
        invariant
            1 <= i <= w@.len(),
            forall|k: int| 1 <= k < i ==> is_ascii_alnum(#[trigger] w@[k]),
        decreases w@.len() - i,
    {
        if !ascii_alnum(w[i]) {
            assert(!is_ascii_alnum(w@[i as int]));
            return false;
        }
        i += 1;
    }
    let v: Vec<char> = chars_of(short);
    let mut letter: &[char] = v.as_slice();
    while letter.len() > 0 && letter[0] == '-'
        invariant
            without_dashes(letter@) == without_dashes(short@),
        decreases letter@.len(),
    {
        letter = slice_subrange(letter, 1, letter.len());
    }
    ends_with(w, letter)
}

fn wants_next(text: &str, f: &FlagName) -> (b: bool)
    ensures
        b == takes_next(text@, *f),
{
    if same_text(text, f.long) || same_text(text, f.short) {
        return true;
    }
    if !f.cluster {
        return false;
    }
    let w: Vec<char> = chars_of(text);
    let mut long: Vec<char> = chars_of(f.long);
    long.push('=');
    let short: Vec<char> = chars_of(f.short);
    !starts_with(w.as_slice(), long.as_slice()) && !starts_with(w.as_slice(), short.as_slice())
        && cluster_of(w.as_slice(), f.short)
}

fn hit_at(seg: &[Token], f: &FlagName, i: usize) -> (r: Option<FlagHit>)
    requires
        i < seg@.len(),
    ensures
        opt_hit_view(r) == flag_at(toks(seg@), *f, i as int),
{
    let ghost ts = toks(seg@);
    assert(ts[i as int] == seg@[i as int]@);
    let text: &str = seg[i].text.as_str();
    if same_text(text, f.long) || same_text(text, f.short) {
        return hit_of_next(seg, i);
    }
    let w: Vec<char> = chars_of(text);
    let mut long: Vec<char> = chars_of(f.long);
    long.push('=');
    if starts_with(w.as_slice(), long.as_slice()) {
        return Some(
            FlagHit {
                value: part_of(w.as_slice(), long.len(), w.len()),
                start: seg[i].start,
                end: seg[i].end,
                prefix: string_of(long.as_slice()),
            },
        );
    }
    let mut short: Vec<char> = chars_of(f.short);
    if starts_with(w.as_slice(), short.as_slice()) && w.len() > short.len() {
        let bare: usize = short.len();
        short.push('=');
        if starts_with(w.as_slice(), short.as_slice()) {
            return Some(
                FlagHit {
                    value: part_of(w.as_slice(), short.len(), w.len()),
                    start: seg[i].start,
                    end: seg[i].end,
                    prefix: string_of(short.as_slice()),
                },
            );
        }
        return Some(
            FlagHit {
                value: part_of(w.as_slice(), bare, w.len()),
                start: seg[i].start,
                end: seg[i].end,
                prefix: text_of(f.short),
            },
        );
    }
    if f.cluster && cluster_of(w.as_slice(), f.short) {
        return hit_of_next(seg, i);
    }
    None
}

/// `(occurrences, last hit, ambiguous)`. Several occurrences drop editing:
/// showing one value while another executes is what this boundary exists to prevent.
/// Ambiguous means a flag's value looks like another flag (`--title --body B`, and
/// `-am --amend` where flags cluster): the tool would swallow the flag as the value, so it
/// must not be presented as editable.
pub fn count_flag_detail(seg: &[Token], f: &FlagName) -> (r: (usize, Option<FlagHit>, bool))
    ensures
        r.0 == flag_count(toks(seg@), *f, seg@.len() as int),
        opt_hit_view(r.1) == flag_last(toks(seg@), *f, seg@.len() as int),
        r.2 == flag_ambiguous(toks(seg@), *f),
{
    let ghost ts = toks(seg@);
    let mut count: usize = 0;
    let mut last: Option<FlagHit> = None;
    let mut ambiguous: bool = false;
    let mut i: usize = 0;
    while i < seg.len()
        invariant
            i <= seg@.len(),
            ts == toks(seg@),
            count <= i,
            count == flag_count(ts, *f, i as int),
            opt_hit_view(last) == flag_last(ts, *f, i as int),
            ambiguous ==> flag_ambiguous(ts, *f),
            !ambiguous ==> forall|k: int| 0 <= k < i ==> !#[trigger] flag_swallowed(ts, *f, k),
        decreases seg@.len() - i,
    {
        assert(ts[i as int] == seg@[i as int]@);
        let text: &str = seg[i].text.as_str();
        if seg.len() - i > 1 {
            assert(ts[i + 1] == seg@[i + 1]@);
            if wants_next(text, f) && flag_word(seg[i + 1].text.as_str()) {
                assert(flag_swallowed(ts, *f, i as int));
                ambiguous = true;
            }
        }
        match hit_at(seg, f, i) {
            Some(hit) => {
                count += 1;
                last = Some(hit);
            },
            None => {},
        }
        i += 1;
    }
    (count, last, ambiguous)
}

/// A flag's value with a here-doc substitution unwrapped to its body; empty without one.
pub open spec fn shown_value(seg: Seq<TokenV>, f: FlagName) -> Seq<char> {
    match flag_last(seg, f, seg.len() as int) {
        Some(hit) => match heredoc_of(hit.value) {
            Some(body) => body,
            None => hit.value,
        },
        None => seq![],
    }
}

fn flag_value(seg: &[Token], f: &FlagName) -> (r: String)
    ensures
        r@ == shown_value(toks(seg@), *f),
{
    let (_, hit, _) = count_flag_detail(seg, f);
    match hit {
        Some(hit) => match unwrap_heredoc(hit.value.as_str()) {
            Some(body) => body,
            None => hit.value,
        },
        None => String::new(),
    }
}

/// A replacement of the bytes `start..end` of a command.
pub struct Edit {
    pub start: usize,
    pub end: usize,
    pub text: String,
}

pub struct EditV {
    pub start: int,
    pub end: int,
    pub text: Seq<char>,
}

impl View for Edit {
    type V = EditV;

    open spec fn view(&self) -> EditV {
        EditV { start: self.start as int, end: self.end as int, text: self.text@ }
    }
}

pub open spec fn edits_view(v: Seq<Edit>) -> Seq<EditV> {
    v.map_values(|e: Edit| e@)
}

/// The edit that puts `value`, quoted, into the flag's place; where the flag is absent
/// and the value is not empty, `long value` goes behind the segment.
pub open spec fn edit_of(seg: Seq<TokenV>, f: FlagName, value: Seq<char>) -> Option<EditV> {
    match flag_last(seg, f, seg.len() as int) {
        Some(hit) => Some(
            EditV { start: hit.start, end: hit.end, text: hit.prefix + quoted(value) },
        ),
        None => if value.len() == 0 || seg.len() == 0 {
            None
        } else {
            Some(
                EditV {
                    start: seg.last().end,
                    end: seg.last().end,
                    text: seq![' '] + f.long@ + seq![' '] + quoted(value),
                },
            )
        },
    }
}

fn flag_edit(seg: &[Token], f: &FlagName, value: &str) -> (r: Option<Edit>)
    ensures
        match r {
            Some(e) => edit_of(toks(seg@), *f, value@) == Some(e@),
            None => edit_of(toks(seg@), *f, value@) is None,
        },
{
    let (_, hit, _) = count_flag_detail(seg, f);
    match hit {
        Some(hit) => {
            let text: String = hit.prefix.concat(sh_quote(value).as_str());
            Some(Edit { start: hit.start, end: hit.end, text })
        },
        None => {
            if value.is_empty() || seg.len() == 0 {
                return None;
            }
            let end: usize = seg[seg.len() - 1].end;
            assert(toks(seg@).last().end == end);
            let mut text: String = String::new();
            text.push(' ');
            text.append(f.long);
            text.push(' ');
            text.append(sh_quote(value).as_str());
            assert(text@ =~= seq![' '] + f.long@ + seq![' '] + quoted(value@));
            Some(Edit { start: end, end, text })
        },
    }
}

/// `edits` with `e` behind every edit that starts no earlier.
pub open spec fn place(edits: Seq<EditV>, e: EditV) -> Seq<EditV>
    decreases edits.len(),
{
    if edits.len() == 0 || edits.last().start >= e.start {
        edits.push(e)
    } else {
        place(edits.drop_last(), e).push(edits.last())
    }
}

/// The edits from the last to the first in the command; edits at one place keep their
/// order.
pub open spec fn right_to_left(edits: Seq<EditV>) -> Seq<EditV>
    decreases edits.len(),
{
    if edits.len() == 0 {
        seq![]
    } else {
        place(right_to_left(edits.drop_last()), edits.last())
    }
}

/// The character at which byte `b` of `s` stands: one inside a character stands for where it
/// begins, one behind the last for the end.
pub open spec fn char_at(s: Seq<char>, b: int) -> int {
    head_end(s, b as nat) as int
}

/// `s` with the bytes `start..end` replaced by `text`.
pub open spec fn edited(s: Seq<char>, e: EditV) -> Seq<char> {
    let end = char_at(s, e.end);
    let start = if char_at(s, e.start) <= end {
        char_at(s, e.start)
    } else {
        end
    };
    s.subrange(0, start) + e.text + s.subrange(end, s.len() as int)
}

pub open spec fn edited_all(s: Seq<char>, edits: Seq<EditV>) -> Seq<char>
    decreases edits.len(),
{
    if edits.len() == 0 {
        s
    } else {
        edited(edited_all(s, edits.drop_last()), edits.last())
    }
}

/// A command with all edits made, from right to left so that earlier ranges stay valid.
pub open spec fn spliced(s: Seq<char>, edits: Seq<EditV>) -> Seq<char> {
    edited_all(s, right_to_left(edits))
}

fn place_edit(edits: &mut Vec<Edit>, e: Edit)
    ensures
        edits_view(final(edits)@) == place(edits_view(old(edits)@), e@),
    decreases old(edits)@.len(),
{
    if edits.len() == 0 || edits[edits.len() - 1].start >= e.start {
        proof {
            if edits@.len() > 0 {
                assert(edits_view(edits@).last() == edits@.last()@);
            }
        }
        edits.push(e);
        assert(edits_view(edits@) =~= edits_view(old(edits)@).push(e@));
    } else {
        assert(edits_view(edits@).last() == edits@.last()@);
        let last: Edit = edits.pop().unwrap();
        assert(edits_view(edits@) =~= edits_view(old(edits)@).drop_last());
        place_edit(edits, e);
        let ghost done = edits_view(edits@);
        edits.push(last);
        assert(edits_view(edits@) =~= done.push(last@));
    }
}

fn apply_edit(s: &Vec<char>, e: &Edit) -> (r: Vec<char>)
    ensures
        r@ == edited(s@, e@),
{
    let end: usize = chars_within(s.as_slice(), e.end);
    let first: usize = chars_within(s.as_slice(), e.start);
    let start: usize = if first <= end {
        first
    } else {
        end
    };
    let mut r: Vec<char> = slice_to_vec(slice_subrange(s.as_slice(), 0, start));
    let text: Vec<char> = chars_of(e.text.as_str());
    crate::text::push_all(&mut r, text.as_slice());
    crate::text::push_all(&mut r, slice_subrange(s.as_slice(), end, s.len()));
    r
}

/// Apply the edits right-to-left so earlier ranges stay valid.
pub fn splice(command: &str, edits: Vec<Edit>) -> (r: String)
    ensures
        r@ == spliced(command@, edits_view(edits@)),
{
    let ghost ev = edits_view(edits@);
    let mut rest: Vec<Edit> = edits;
    let mut sorted: Vec<Edit> = Vec::new();
    // Taking from the front keeps edits at one place in their order.
    let ghost mut taken: int = 0;
    assert(edits_view(sorted@) =~= right_to_left(ev.take(0)));
    while rest.len() > 0
        invariant
            0 <= taken <= ev.len(),
            edits_view(rest@) == ev.subrange(taken, ev.len() as int),
            edits_view(sorted@) == right_to_left(ev.take(taken)),
        decreases rest@.len(),
    {
        let ghost before = edits_view(rest@);
        assert(before.len() == rest@.len());
        let e: Edit = rest.remove(0);
        assert(before[0] == e@);
        assert(edits_view(rest@) =~= before.subrange(1, before.len() as int));
        assert(before.subrange(1, before.len() as int) =~= ev.subrange(
            taken + 1,
            ev.len() as int,
        ));
        assert(ev.take(taken + 1).drop_last() =~= ev.take(taken));
        assert(ev.take(taken + 1).last() == e@);
        place_edit(&mut sorted, e);
        proof {
            taken = taken + 1;
        }
    }
    assert(ev.take(taken) =~= ev) by {
        assert(edits_view(rest@).len() == 0);
    }
    let ghost sv = edits_view(sorted@);
    let mut out: Vec<char> = chars_of(command);
    let mut i: usize = 0;
    while i < sorted.len()
        invariant
            i <= sorted@.len(),
            sv == edits_view(sorted@),
            out@ == edited_all(command@, sv.take(i as int)),
        decreases sorted@.len() - i,
    {
        out = apply_edit(&out, &sorted[i]);
        assert(sv.take(i + 1).drop_last() =~= sv.take(i as int));
        assert(sv.take(i + 1).last() == sorted@[i as int]@);
        i += 1;
    }
    assert(sv.take(i as int) =~= sv);
    string_of(out.as_slice())
}

// ---------------------------------------------------------------------------
// External message sources
// ---------------------------------------------------------------------------

/// Flags that make the message or body come from somewhere the dialog cannot show.
pub open spec fn external_flag(w: Seq<char>) -> bool {
    ||| w == "-F"@
    ||| w == "--file"@
    ||| w == "--body-file"@
    ||| w == "-C"@
    ||| w == "--reuse-message"@
    ||| w == "--fill"@
    ||| w == "--fill-first"@
    ||| w == "--fill-verbose"@
    ||| w == "--template"@
}

/// A word up to its first equals sign.
pub open spec fn flag_part(w: Seq<char>) -> Seq<char> {
    w.subrange(0, next_char(w, '=', 0))
}

/// The first external-message flag among `seg[i..]`.
pub open spec fn external_from(seg: Seq<TokenV>, i: int) -> Option<Seq<char>>
    decreases seg.len() - i,
{
    if i < 0 || i >= seg.len() {
        None
    } else if external_flag(flag_part(seg[i].text)) {
        Some(flag_part(seg[i].text))
    } else {
        external_from(seg, i + 1)
    }
}

pub open spec fn external_note(flag: Seq<char>) -> Seq<char> {
    "the text comes from `"@ + flag + "` — approve the command as-is or deny it"@
}

fn is_external_flag(w: &str) -> (b: bool)
    ensures
        b == external_flag(w@),
{
    same_text(w, "-F") || same_text(w, "--file") || same_text(w, "--body-file") || same_text(
        w,
        "-C",
    ) || same_text(w, "--reuse-message") || same_text(w, "--fill") || same_text(w, "--fill-first")
        || same_text(w, "--fill-verbose") || same_text(w, "--template")
}

/// `Some(reason)` when a segment sources its text externally, so the value shown in the
/// dialog would be empty and editing it would produce a broken command.
fn external_source(seg: &[Token]) -> (r: Option<String>)
    ensures
        match r {
            Some(t) => external_from(toks(seg@), 0) matches Some(flag) && t@ == external_note(flag),
            None => external_from(toks(seg@), 0) is None,
        },
{
    let ghost ts = toks(seg@);
    let mut i: usize = 0;
    while i < seg.len()
        invariant
            i <= seg@.len(),
            ts == toks(seg@),
            external_from(ts, i as int) == external_from(ts, 0),
        decreases seg@.len() - i,
    {
        assert(ts[i as int].text == seg@[i as int].text@);
        let w: Vec<char> = chars_of(seg[i].text.as_str());
        let e: usize = find_char(w.as_slice(), '=', 0);
        let flag: String = part_of(w.as_slice(), 0, e);
        if is_external_flag(flag.as_str()) {
            let note: String = text_of("the text comes from `").concat(flag.as_str()).concat(
                "` — approve the command as-is or deny it",
            );
            return Some(note);
        }
        i += 1;
    }
    None
}

// ---------------------------------------------------------------------------
// Rules
// ---------------------------------------------------------------------------

/// The `command` string of a tool call's arguments.
pub open spec fn command_in(args: JsonV) -> Option<Seq<char>> {
    text_in(member(args, "command"@))
}

fn command_of<'a>(args: &'a Json) -> (r: Option<&'a str>)
    ensures
        match r {
            Some(c) => command_in(args@) == Some(c@),
            None => command_in(args@) is None,
        },
{
    match args.get("command") {
        Some(j) => j.as_str(),
        None => None,
    }
}

/// The command of a `Bash` tool call.
pub open spec fn bash_command_in(tool: Seq<char>, args: JsonV) -> Option<Seq<char>> {
    if tool == "Bash"@ {
        command_in(args)
    } else {
        None
    }
}

fn bash_command<'a>(tool: &str, args: &'a Json) -> (r: Option<&'a str>)
    ensures
        match r {
            Some(c) => bash_command_in(tool@, args@) == Some(c@),
            None => bash_command_in(tool@, args@) is None,
        },
{
    if !same_text(tool, "Bash") {
        return None;
    }
    command_of(args)
}

/// The value of the first param with this key.
pub open spec fn edited_value_of(edited: Seq<GateParamV>, key: Seq<char>) -> Option<Seq<char>>
    decreases edited.len(),
{
    if edited.len() == 0 {
        None
    } else if edited[0].key == key {
        Some(edited[0].value)
    } else {
        edited_value_of(edited.subrange(1, edited.len() as int), key)
    }
}

fn edited_value<'a>(edited: &'a Vec<GateParam>, key: &str) -> (r: Option<&'a str>)
    ensures
        match r {
            Some(v) => edited_value_of(params_view(edited@), key@) == Some(v@),
            None => edited_value_of(params_view(edited@), key@) is None,
        },
{
    let ghost pv = params_view(edited@);
    let mut i: usize = 0;
    assert(pv.subrange(0, pv.len() as int) =~= pv);
    while i < edited.len()
        invariant
            i <= edited@.len(),
            pv == params_view(edited@),
            edited_value_of(pv.subrange(i as int, pv.len() as int), key@) == edited_value_of(
                pv,
                key@,
            ),
        decreases edited@.len() - i,
    {
        let ghost here = pv.subrange(i as int, pv.len() as int);
        assert(here[0] == edited@[i as int]@);
        if same_text(edited[i].key.as_str(), key) {
            return Some(edited[i].value.as_str());
        }
        assert(here.subrange(1, here.len() as int) =~= pv.subrange(i + 1, pv.len() as int));
        i += 1;
    }
    None
}

fn param(key: &str, label: &str, value: String, multiline: bool) -> (r: GateParam)
    ensures
        r@ == (GateParamV { key: key@, label: label@, value: value@, multiline }),
{
    GateParam { key: text_of(key), label: text_of(label), value, multiline }
}

/// A match that can only be approved or denied as it is.
pub open spec fn fixed_match(kind: Seq<char>, note: Option<Seq<char>>) -> GateMatchV {
    GateMatchV { kind, params: seq![], note }
}

fn fixed(kind: &str, note: String) -> (r: GateMatch)
    ensures
        r@ == fixed_match(kind@, Some(note@)),
{
    let params: Vec<GateParam> = Vec::new();
    assert(params_view(params@) =~= seq![]);
    GateMatch { kind: text_of(kind), params, note: Some(note) }
}

pub open spec fn title_flag() -> FlagName {
    FlagName { long: "--title", short: "-t", cluster: false }
}

pub open spec fn body_flag() -> FlagName {
    FlagName { long: "--body", short: "-b", cluster: false }
}

pub open spec fn message_flag() -> FlagName {
    FlagName { long: "--message", short: "-m", cluster: true }
}

/// What a gate shows for a command that runs `git push`.
pub open spec fn push_match(command: Seq<char>) -> Option<GateMatchV> {
    if runs_anywhere(Gated::Push, command, MAX_NESTING as nat) {
        Some(fixed_match("git push"@, None))
    } else {
        None
    }
}

/// What a gate shows for the one segment that runs `gh pr create`.
pub open spec fn pr_segment_match(seg: Seq<TokenV>) -> GateMatchV {
    let n = seg.len() as int;
    match external_from(seg, 0) {
        Some(flag) => fixed_match("PR creation"@, Some(external_note(flag))),
        None => if flag_count(seg, title_flag(), n) > 1 || flag_count(seg, body_flag(), n) > 1 {
            fixed_match(
                "PR creation"@,
                Some("the title or body flag appears more than once — approve as-is or deny"@),
            )
        } else if flag_ambiguous(seg, title_flag()) || flag_ambiguous(seg, body_flag()) {
            fixed_match(
                "PR creation"@,
                Some(
                    "a title/body flag is followed by another flag, so gh would use that as the text — approve as-is or deny"@,
                ),
            )
        } else {
            GateMatchV {
                kind: "PR creation"@,
                params: seq![
                    GateParamV {
                        key: "title"@,
                        label: "Title"@,
                        value: shown_value(seg, title_flag()),
                        multiline: false,
                    },
                    GateParamV {
                        key: "body"@,
                        label: "Body"@,
                        value: shown_value(seg, body_flag()),
                        multiline: true,
                    },
                ],
                note: None,
            }
        },
    }
}

/// What a gate shows for a command that runs `gh pr create`.
pub open spec fn pr_match(command: Seq<char>) -> Option<GateMatchV> {
    let found = matching(Gated::PrCreate, segments(tokens_of(command)));
    if found.len() == 0 {
        if runs_anywhere(Gated::PrCreate, command, MAX_NESTING as nat) {
            Some(
                fixed_match(
                    "PR creation"@,
                    Some(
                        "the `gh pr create` call is nested inside another command —                          approve the command as-is or deny it"@,
                    ),
                ),
            )
        } else {
            None
        }
    } else if found.len() > 1 {
        Some(
            fixed_match(
                "PR creation"@,
                Some(
                    decimal(found.len())
                        + " `gh pr create` calls in one command — approve as-is or deny"@,
                ),
            ),
        )
    } else {
        Some(pr_segment_match(found[0]))
    }
}

/// What a gate shows for the one segment that runs `git commit`.
pub open spec fn commit_segment_match(seg: Seq<TokenV>) -> GateMatchV {
    match external_from(seg, 0) {
        Some(flag) => fixed_match("commit"@, Some(external_note(flag))),
        None => if flag_ambiguous(seg, message_flag()) {
            fixed_match(
                "commit"@,
                Some(
                    "-m is followed by another flag, so git would use that as the message — approve as-is or deny"@,
                ),
            )
        } else if flag_count(seg, message_flag(), seg.len() as int) > 1 {
            fixed_match(
                "commit"@,
                Some("several -m paragraphs in one commit — approve as-is or deny"@),
            )
        } else {
            GateMatchV {
                kind: "commit"@,
                params: seq![
                    GateParamV {
                        key: "message"@,
                        label: "Commit message"@,
                        value: shown_value(seg, message_flag()),
                        multiline: true,
                    },
                ],
                note: None,
            }
        },
    }
}

/// What a gate shows for a command that runs `git commit`.
pub open spec fn commit_match(command: Seq<char>) -> Option<GateMatchV> {
    let found = matching(Gated::Commit, segments(tokens_of(command)));
    if found.len() == 0 {
        if runs_anywhere(Gated::Commit, command, MAX_NESTING as nat) {
            Some(
                fixed_match(
                    "commit"@,
                    Some(
                        "the `git commit` call is nested inside another command —                      approve the command as-is or deny it"@,
                    ),
                ),
            )
        } else {
            None
        }
    } else if found.len() > 1 {
        Some(
            fixed_match(
                "commit"@,
                Some(decimal(found.len()) + " commits in one command — approve as-is or deny"@),
            ),
        )
    } else {
        Some(commit_segment_match(found[0]))
    }
}

/// The first segment that runs the operation.
pub open spec fn first_running(op: Gated, segs: Seq<Seq<TokenV>>, i: int) -> Option<Seq<TokenV>>
    decreases segs.len() - i,
{
    if i < 0 || i >= segs.len() {
        None
    } else if runs(op, segs[i]) {
        Some(segs[i])
    } else {
        first_running(op, segs, i + 1)
    }
}

pub open spec fn push_opt(edits: Seq<EditV>, e: Option<EditV>) -> Seq<EditV> {
    match e {
        Some(e) => edits.push(e),
        None => edits,
    }
}

/// The edit for a flag, when the params hold a value under `key`.
pub open spec fn param_edit(
    seg: Seq<TokenV>,
    f: FlagName,
    params: Seq<GateParamV>,
    key: Seq<char>,
) -> Option<EditV> {
    match edited_value_of(params, key) {
        Some(value) => edit_of(seg, f, value),
        None => None,
    }
}

/// The command with the edited title and body in place.
pub open spec fn pr_command(command: Seq<char>, params: Seq<GateParamV>) -> Option<Seq<char>> {
    match first_running(Gated::PrCreate, segments(tokens_of(command)), 0) {
        Some(seg) => {
            let title = push_opt(seq![], param_edit(seg, title_flag(), params, "title"@));
            Some(
                spliced(command, push_opt(title, param_edit(seg, body_flag(), params, "body"@))),
            )
        },
        None => None,
    }
}

/// The command with the edited message in place.
pub open spec fn commit_command(command: Seq<char>, params: Seq<GateParamV>) -> Option<
    Seq<char>,
> {
    match first_running(Gated::Commit, segments(tokens_of(command)), 0) {
        Some(seg) => Some(
            spliced(
                command,
                push_opt(seq![], param_edit(seg, message_flag(), params, "message"@)),
            ),
        ),
        None => None,
    }
}

/// The arguments with the command replaced, where there is a new one.
pub open spec fn with_new_command(args: JsonV, command: Option<Seq<char>>) -> JsonV {
    match command {
        Some(c) => with_member(args, "command"@, JsonV::Text(c)),
        None => args,
    }
}

pub open spec fn pr_applied(args: JsonV, params: Seq<GateParamV>) -> JsonV {
    match command_in(args) {
        Some(c) => with_new_command(args, pr_command(c, params)),
        None => args,
    }
}

pub open spec fn commit_applied(args: JsonV, params: Seq<GateParamV>) -> JsonV {
    match command_in(args) {
        Some(c) => with_new_command(args, commit_command(c, params)),
        None => args,
    }
}

fn find_running<'a>(op: Gated, segs: &Vec<&'a [Token]>) -> (r: Option<&'a [Token]>)
    ensures
        match r {
            Some(s) => first_running(op, segs_view(segs@), 0) == Some(toks(s@)),
            None => first_running(op, segs_view(segs@), 0) is None,
        },
{
    let ghost sv = segs_view(segs@);
    let mut i: usize = 0;
    while i < segs.len()
        invariant
            i <= segs@.len(),
            sv == segs_view(segs@),
            first_running(op, sv, i as int) == first_running(op, sv, 0),
        decreases segs@.len() - i,
    {
        assert(sv[i as int] == toks(segs@[i as int]@));
        if segment_runs(op, segs[i]) {
            return Some(segs[i]);
        }
        i += 1;
    }
    None
}

fn push_param_edit(
    edits: &mut Vec<Edit>,
    seg: &[Token],
    f: &FlagName,
    params: &Vec<GateParam>,
    key: &str,
)
    ensures
        edits_view(final(edits)@) == push_opt(
            edits_view(old(edits)@),
            param_edit(toks(seg@), *f, params_view(params@), key@),
        ),
{
    match edited_value(params, key) {
        Some(value) => match flag_edit(seg, f, value) {
            Some(e) => {
                edits.push(e);
                assert(edits_view(edits@) =~= edits_view(old(edits)@).push(e@));
            },
            None => {},
        },
        None => {},
    }
}

/// A gated operation: a matcher on a tool call and the substitution of edited values.
pub trait GateRule {
    /// What the rule's id is.
    spec fn id_text(&self) -> Seq<char>;

    /// What the rule shows for a tool call; nothing where it does not gate it.
    spec fn match_of(&self, tool: Seq<char>, args: JsonV) -> Option<GateMatchV>;

    /// The arguments that an approved call runs with.
    spec fn applied(&self, args: JsonV, edited: Seq<GateParamV>) -> JsonV;

    fn id(&self) -> (r: &'static str)
        ensures
            r@ == self.id_text(),
    ;

    fn matches(&self, tool: &str, args: &Json) -> (r: Option<GateMatch>)
        ensures
            opt_match_view(r) == self.match_of(tool@, args@),
    ;

    /// Substitute the (possibly edited) params back into the tool args; the result
    /// replaces the original args when the call is allowed.
    fn apply(&self, args: &Json, edited: &Vec<GateParam>) -> (r: Json)
        ensures
            r@ == self.applied(args@, params_view(edited@)),
    ;
}

/// Gates any `git push` invocation (also `git -C <path> push`, and pushes hidden in
/// compound commands). No editable params: the dialog shows the raw command.
#[derive(Clone, Copy, Debug)]
pub struct GitPushRule;

impl GateRule for GitPushRule {
    open spec fn id_text(&self) -> Seq<char> {
        "git_push"@
    }

    open spec fn match_of(&self, tool: Seq<char>, args: JsonV) -> Option<GateMatchV> {
        match bash_command_in(tool, args) {
            Some(c) => push_match(c),
            None => None,
        }
    }

    open spec fn applied(&self, args: JsonV, edited: Seq<GateParamV>) -> JsonV {
        args
    }

    fn id(&self) -> (r: &'static str) {
        "git_push"
    }

    fn matches(&self, tool: &str, args: &Json) -> (r: Option<GateMatch>) {
        let command: &str = match bash_command(tool, args) {
            Some(c) => c,
            None => return None,
        };
        if !any_segment_nested(Gated::Push, command, MAX_NESTING) {
            return None;
        }
        let params: Vec<GateParam> = Vec::new();
        assert(params_view(params@) =~= seq![]);
        Some(GateMatch { kind: text_of("git push"), params, note: None })
    }

    fn apply(&self, args: &Json, edited: &Vec<GateParam>) -> (r: Json) {
        args.copy()
    }
}

/// Gates `gh pr create`; title and body are editable.
#[derive(Clone, Copy, Debug)]
pub struct GhPrCreateRule;

impl GateRule for GhPrCreateRule {
    open spec fn id_text(&self) -> Seq<char> {
        "gh_pr_create"@
    }

    open spec fn match_of(&self, tool: Seq<char>, args: JsonV) -> Option<GateMatchV> {
        match bash_command_in(tool, args) {
            Some(c) => pr_match(c),
            None => None,
        }
    }

    open spec fn applied(&self, args: JsonV, edited: Seq<GateParamV>) -> JsonV {
        pr_applied(args, edited)
    }

    fn id(&self) -> (r: &'static str) {
        "gh_pr_create"
    }

    fn matches(&self, tool: &str, args: &Json) -> (r: Option<GateMatch>) {
        let command: &str = match bash_command(tool, args) {
            Some(c) => c,
            None => return None,
        };
        let tokens: Vec<Token> = tokenize(command);
        let segs: Vec<&[Token]> = top_level_segments(Gated::PrCreate, tokens.as_slice());
        let ghost found = segs_view(segs@);
        // Wrapped or nested invocation: gate it, but never pretend it is editable.
        if segs.len() == 0 {
            if !any_segment_nested(Gated::PrCreate, command, MAX_NESTING) {
                return None;
            }
            return Some(
                fixed(
                    "PR creation",
                    text_of(
                        "the `gh pr create` call is nested inside another command —                          approve the command as-is or deny it",
                    ),
                ),
            );
        }
        if segs.len() > 1 {
            return Some(
                fixed(
                    "PR creation",
                    decimal_text(segs.len() as u64).concat(
                        " `gh pr create` calls in one command — approve as-is or deny",
                    ),
                ),
            );
        }
        let seg: &[Token] = segs[0];
        assert(found[0] == toks(seg@));
        match external_source(seg) {
            Some(reason) => return Some(fixed("PR creation", reason)),
            None => {},
        }
        let title: FlagName = FlagName { long: "--title", short: "-t", cluster: false };
        let body: FlagName = FlagName { long: "--body", short: "-b", cluster: false };
        let (title_count, _, title_ambiguous) = count_flag_detail(seg, &title);
        let (body_count, _, body_ambiguous) = count_flag_detail(seg, &body);
        if title_count > 1 || body_count > 1 {
            return Some(
                fixed(
                    "PR creation",
                    text_of(
                        "the title or body flag appears more than once — approve as-is or deny",
                    ),
                ),
            );
        }
        if title_ambiguous || body_ambiguous {
            return Some(
                fixed(
                    "PR creation",
                    text_of(
                        "a title/body flag is followed by another flag, so gh would use that as the text — approve as-is or deny",
                    ),
                ),
            );
        }
        let mut params: Vec<GateParam> = Vec::new();
        params.push(param("title", "Title", flag_value(seg, &title), false));
        params.push(param("body", "Body", flag_value(seg, &body), true));
        assert(params_view(params@) =~= seq![params@[0]@, params@[1]@]);
        Some(GateMatch { kind: text_of("PR creation"), params, note: None })
    }

    fn apply(&self, args: &Json, edited: &Vec<GateParam>) -> (r: Json) {
        let command: &str = match command_of(args) {
            Some(c) => c,
            None => return args.copy(),
        };
        let tokens: Vec<Token> = tokenize(command);
        let segs: Vec<&[Token]> = split_commands(tokens.as_slice());
        let seg: &[Token] = match find_running(Gated::PrCreate, &segs) {
            Some(s) => s,
            None => return args.copy(),
        };
        let title: FlagName = FlagName { long: "--title", short: "-t", cluster: false };
        let body: FlagName = FlagName { long: "--body", short: "-b", cluster: false };
        let mut edits: Vec<Edit> = Vec::new();
        assert(edits_view(edits@) =~= seq![]);
        push_param_edit(&mut edits, seg, &title, edited, "title");
        push_param_edit(&mut edits, seg, &body, edited, "body");
        args.with_text("command", splice(command, edits))
    }
}

/// Gates `git commit`; the message is editable. Registered only when the `gate_commit`
/// setting is `"true"`.
#[derive(Clone, Copy, Debug)]
pub struct GitCommitRule;

impl GateRule for GitCommitRule {
    open spec fn id_text(&self) -> Seq<char> {
        "git_commit"@
    }

    open spec fn match_of(&self, tool: Seq<char>, args: JsonV) -> Option<GateMatchV> {
        match bash_command_in(tool, args) {
            Some(c) => commit_match(c),
            None => None,
        }
    }

    open spec fn applied(&self, args: JsonV, edited: Seq<GateParamV>) -> JsonV {
        commit_applied(args, edited)
    }

    fn id(&self) -> (r: &'static str) {
        "git_commit"
    }

    fn matches(&self, tool: &str, args: &Json) -> (r: Option<GateMatch>) {
        let command: &str = match bash_command(tool, args) {
            Some(c) => c,
            None => return None,
        };
        let tokens: Vec<Token> = tokenize(command);
        let segs: Vec<&[Token]> = top_level_segments(Gated::Commit, tokens.as_slice());
        let ghost found = segs_view(segs@);
        if segs.len() == 0 {
            if !any_segment_nested(Gated::Commit, command, MAX_NESTING) {
                return None;
            }
            return Some(
                fixed(
                    "commit",
                    text_of(
                        "the `git commit` call is nested inside another command —                      approve the command as-is or deny it",
                    ),
                ),
            );
        }
        if segs.len() > 1 {
            return Some(
                fixed(
                    "commit",
                    decimal_text(segs.len() as u64).concat(
                        " commits in one command — approve as-is or deny",
                    ),
                ),
            );
        }
        let seg: &[Token] = segs[0];
        assert(found[0] == toks(seg@));
        match external_source(seg) {
            Some(reason) => return Some(fixed("commit", reason)),
            None => {},
        }
        let message: FlagName = FlagName { long: "--message", short: "-m", cluster: true };
        let (message_count, _, message_ambiguous) = count_flag_detail(seg, &message);
        if message_ambiguous {
            return Some(
                fixed(
                    "commit",
                    text_of(
                        "-m is followed by another flag, so git would use that as the message — approve as-is or deny",
                    ),
                ),
            );
        }
        if message_count > 1 {
            // git concatenates repeated -m into paragraphs; editing one is misleading.
            return Some(
                fixed(
                    "commit",
                    text_of("several -m paragraphs in one commit — approve as-is or deny"),
                ),
            );
        }
        let mut params: Vec<GateParam> = Vec::new();
        params.push(param("message", "Commit message", flag_value(seg, &message), true));
        assert(params_view(params@) =~= seq![params@[0]@]);
        Some(GateMatch { kind: text_of("commit"), params, note: None })
    }

    fn apply(&self, args: &Json, edited: &Vec<GateParam>) -> (r: Json) {
        let command: &str = match command_of(args) {
            Some(c) => c,
            None => return args.copy(),
        };
        let tokens: Vec<Token> = tokenize(command);
        let segs: Vec<&[Token]> = split_commands(tokens.as_slice());
        let seg: &[Token] = match find_running(Gated::Commit, &segs) {
            Some(s) => s,
            None => return args.copy(),
        };
        let message: FlagName = FlagName { long: "--message", short: "-m", cluster: true };
        let mut edits: Vec<Edit> = Vec::new();
        assert(edits_view(edits@) =~= seq![]);
        push_param_edit(&mut edits, seg, &message, edited, "message");
        args.with_text("command", splice(command, edits))
    }
}

} // verus!
