//! A small shell-aware tokenizer: single and double quotes, backslash escapes, backticks
//! and command substitution `$(…)` with here-doc awareness. It is not all of POSIX, but
//! enough for the command shapes the agent CLI produces. Every token records the
//! range of bytes it came from, so that an edited value can be put in its place
//! without disturbing the rest of the command.
use crate::clip::{byte_len, char_width, lemma_first_char, lemma_last_char};
use crate::text::{
    ascii_alnum, chars_of, find_char, find_last_text, has_prefix, is_ascii_alnum, is_blank,
    last_match, next_char, part_of, push_all, same_chars, starts_with, string_of, text_of, trim,
    trim_start, trimmed, trimmed_start, unicode_alphanumeric,
};
use vstd::prelude::*;
use vstd::slice::*;

verus! {

/// One shell token with its range of bytes in the command.
#[derive(Debug)]
pub struct Token {
    /// Token text with quoting resolved.
    pub text: String,
    /// A command separator (`&&`, `||`, `;`, `|`, `&`, a parenthesis; a newline counts as
    /// `;`).
    pub is_separator: bool,
    /// The bytes of the raw token, quotes among them, are `start..end`.
    pub start: usize,
    pub end: usize,
}

/// What a token is.
pub struct TokenV {
    pub text: Seq<char>,
    pub is_separator: bool,
    pub start: int,
    pub end: int,
}

impl View for Token {
    type V = TokenV;

    open spec fn view(&self) -> TokenV {
        TokenV {
            text: self.text@,
            is_separator: self.is_separator,
            start: self.start as int,
            end: self.end as int,
        }
    }
}

pub open spec fn toks(v: Seq<Token>) -> Seq<TokenV> {
    v.map_values(|t: Token| t@)
}

/// A word that is being read: its text so far and where it began.
pub struct Word {
    pub text: Seq<char>,
    pub start: int,
}

pub open spec fn opened(cur: Option<Word>, i: int) -> Word {
    match cur {
        Some(w) => w,
        None => Word { text: seq![], start: i },
    }
}

pub open spec fn grown(cur: Option<Word>, i: int, more: Seq<char>) -> Option<Word> {
    let w = opened(cur, i);
    Some(Word { text: w.text + more, start: w.start })
}

pub open spec fn flushed(cur: Option<Word>, end: int, done: Seq<TokenV>) -> Seq<TokenV> {
    match cur {
        Some(w) => done.push(TokenV { text: w.text, is_separator: false, start: w.start, end }),
        None => done,
    }
}

pub open spec fn separator(text: Seq<char>, start: int, end: int) -> TokenV {
    TokenV { text, is_separator: true, start, end }
}

pub open spec fn holds(s: Seq<char>, i: int, c: char) -> bool {
    0 <= i < s.len() && s[i] == c
}

/// The tokens of `s[i..]`, behind those already `done`, when `cur` is being read. Here they
/// stand where they stand among the characters.
pub open spec fn lex(s: Seq<char>, i: int, cur: Option<Word>, done: Seq<TokenV>) -> Seq<TokenV>
    decreases s.len() - i,
{
    if i < 0 || i >= s.len() {
        flushed(cur, s.len() as int, done)
    } else {
        let c = s[i];
        if c == ' ' || c == '\t' || c == '\r' {
            lex(s, i + 1, None, flushed(cur, i, done))
        } else if c == '\n' || c == ';' {
            lex(s, i + 1, None, flushed(cur, i, done).push(separator(seq![';'], i, i + 1)))
        } else if c == '(' || c == ')' {
            lex(s, i + 1, None, flushed(cur, i, done).push(separator(seq![c], i, i + 1)))
        } else if c == '&' || c == '|' {
            if holds(s, i + 1, c) {
                lex(s, i + 2, None, flushed(cur, i, done).push(separator(seq![c, c], i, i + 2)))
            } else {
                lex(s, i + 1, None, flushed(cur, i, done).push(separator(seq![c], i, i + 1)))
            }
        } else if c == '\'' {
            let j = next_char(s, '\'', i + 1);
            if i < j && j < s.len() {
                lex(s, j + 1, grown(cur, i, s.subrange(i + 1, j)), done)
            } else {
                lex(s, s.len() as int, grown(cur, i, s.subrange(i + 1, s.len() as int)), done)
            }
        } else if c == '"' {
            let (text, j) = double_quoted(s, i + 1, seq![]);
            if i < j <= s.len() {
                lex(s, j, grown(cur, i, text), done)
            } else {
                done
            }
        } else if c == '\\' && holds(s, i + 1, '\n') {
            lex(s, i + 2, cur, done)
        } else if c == '\\' && holds(s, i + 1, '\r') && holds(s, i + 2, '\n') {
            lex(s, i + 3, cur, done)
        } else if c == '\\' && i + 1 < s.len() {
            lex(s, i + 2, grown(cur, i, seq![s[i + 1]]), done)
        } else if c == '\\' {
            lex(s, i + 1, grown(cur, i, seq![]), done)
        } else if c == '$' && holds(s, i + 1, '(') {
            let j = substitution_end(s, i + 2, 1);
            if i < j <= s.len() {
                lex(s, j, grown(cur, i, s.subrange(i, j)), done)
            } else {
                done
            }
        } else if c == '`' {
            let j = quoted_end(s, i + 1, '`');
            if i < j <= s.len() {
                lex(s, j, grown(cur, i, s.subrange(i, j)), done)
            } else {
                done
            }
        } else {
            lex(s, i + 1, grown(cur, i, seq![c]), done)
        }
    }
}

/// The tokens of a command, each with its range of characters.
pub open spec fn char_tokens(s: Seq<char>) -> Seq<TokenV> {
    lex(s, 0, None, seq![])
}

/// How many bytes the first `i` characters take.
pub open spec fn offset(s: Seq<char>, i: int) -> int {
    byte_len(s.take(i)) as int
}

/// A token, given by its range of characters, with its range of bytes.
pub open spec fn in_bytes(s: Seq<char>, t: TokenV) -> TokenV {
    TokenV {
        text: t.text,
        is_separator: t.is_separator,
        start: offset(s, t.start),
        end: offset(s, t.end),
    }
}

pub open spec fn all_in_bytes(s: Seq<char>, ts: Seq<TokenV>) -> Seq<TokenV> {
    ts.map_values(|t: TokenV| in_bytes(s, t))
}

/// The tokens of a command, each with its range of bytes.
pub open spec fn tokens_of(s: Seq<char>) -> Seq<TokenV> {
    all_in_bytes(s, char_tokens(s))
}

/// The characters that a backslash inside double quotes takes away from their meaning.
pub open spec fn escapable(c: char) -> bool {
    c == '"' || c == '\\' || c == '$' || c == '`'
}

/// The text behind an opening double quote, read from `i` on behind `acc`, and the
/// position after the closing one.
pub open spec fn double_quoted(s: Seq<char>, i: int, acc: Seq<char>) -> (Seq<char>, int)
    decreases s.len() - i,
{
    if i < 0 || i >= s.len() {
        (acc, i)
    } else if s[i] == '"' {
        (acc, i + 1)
    } else if s[i] == '\\' && i + 1 < s.len() && escapable(s[i + 1]) {
        double_quoted(s, i + 2, acc.push(s[i + 1]))
    } else if s[i] == '\\' && i + 1 < s.len() {
        double_quoted(s, i + 2, acc.push('\\').push(s[i + 1]))
    } else if s[i] == '$' && holds(s, i + 1, '(') {
        let j = substitution_end(s, i + 2, 1);
        if i < j <= s.len() {
            double_quoted(s, j, acc + s.subrange(i, j))
        } else {
            (acc, i)
        }
    } else if s[i] == '`' {
        let j = quoted_end(s, i + 1, '`');
        if i < j <= s.len() {
            double_quoted(s, j, acc + s.subrange(i, j))
        } else {
            (acc, i)
        }
    } else {
        double_quoted(s, i + 1, acc.push(s[i]))
    }
}

/// The position after the parenthesis that closes the outermost of `depth` open ones.
/// Quotes and here-docs hide the parentheses inside them.
pub open spec fn substitution_end(s: Seq<char>, i: int, depth: nat) -> int
    decreases s.len() - i,
{
    if i < 0 || i >= s.len() || depth == 0 {
        i
    } else if s[i] == '(' {
        substitution_end(s, i + 1, depth + 1)
    } else if s[i] == ')' {
        substitution_end(s, i + 1, (depth - 1) as nat)
    } else if s[i] == '\'' || s[i] == '"' {
        let j = quoted_end(s, i + 1, s[i]);
        if i < j <= s.len() {
            substitution_end(s, j, depth)
        } else {
            i
        }
    } else if s[i] == '<' && holds(s, i + 1, '<') {
        let j = heredoc_end(s, i);
        if i < j <= s.len() {
            substitution_end(s, j, depth)
        } else {
            i
        }
    } else {
        substitution_end(s, i + 1, depth)
    }
}

/// The position after the quote or backtick `q` that closes what is read from `i` on; only
/// inside single quotes a backslash does not take the next character with it.
pub open spec fn quoted_end(s: Seq<char>, i: int, q: char) -> int
    decreases s.len() - i,
{
    if i < 0 || i >= s.len() {
        i
    } else if s[i] == q {
        i + 1
    } else if q != '\'' && s[i] == '\\' && i + 1 < s.len() {
        quoted_end(s, i + 2, q)
    } else {
        quoted_end(s, i + 1, q)
    }
}

/// The first position from `i` on that holds no blank.
pub open spec fn after_blanks(s: Seq<char>, i: int) -> int
    decreases s.len() - i,
{
    if holds(s, i, ' ') {
        after_blanks(s, i + 1)
    } else {
        i
    }
}

pub open spec fn tag_char(c: char) -> bool {
    unicode_alphanumeric(c) || c == '_'
}

/// The first position from `i` on that does not belong to a bare here-doc tag.
pub open spec fn after_tag(s: Seq<char>, i: int) -> int
    decreases s.len() - i,
{
    if 0 <= i < s.len() && tag_char(s[i]) {
        after_tag(s, i + 1)
    } else {
        i
    }
}

/// The position of the end of the line that terminates the here-doc at `i`: `<<TAG`,
/// `<<'TAG'`, `<<"TAG"`, each also with `<<-`, through the line that consists of TAG.
pub open spec fn heredoc_end(s: Seq<char>, i: int) -> int {
    let a = if holds(s, i + 2, '-') {
        i + 3
    } else {
        i + 2
    };
    let b = after_blanks(s, a);
    if holds(s, b, '\'') || holds(s, b, '"') {
        let e = next_char(s, s[b], b + 1);
        let f = if e < s.len() {
            e + 1
        } else {
            e
        };
        heredoc_lines(s, next_char(s, '\n', f), s.subrange(b + 1, e))
    } else {
        let e = after_tag(s, b);
        heredoc_lines(s, next_char(s, '\n', e), s.subrange(b, e))
    }
}

/// The end of the first whole line behind the line feed at `i` that equals `tag`.
pub open spec fn heredoc_lines(s: Seq<char>, i: int, tag: Seq<char>) -> int
    decreases s.len() - i,
{
    if i < 0 || i >= s.len() {
        i
    } else {
        let m = next_char(s, '\n', i + 1);
        if m <= i || m > s.len() || s.subrange(i + 1, m) == tag {
            m
        } else {
            heredoc_lines(s, m, tag)
        }
    }
}

fn scan_quoted(s: &[char], from: usize, q: char) -> (r: usize)
    requires
        from <= s@.len(),
    ensures
        r == quoted_end(s@, from as int, q),
        from <= r <= s@.len(),
{
    let mut i: usize = from;
    while i < s.len() && s[i] != q
        invariant
            from <= i <= s@.len(),
            quoted_end(s@, i as int, q) == quoted_end(s@, from as int, q),
        decreases s@.len() - i,
    {
        if q != '\'' && s[i] == '\\' && s.len() - i > 1 {
            i += 2;
        } else {
            i += 1;
        }
    }
    if i < s.len() {
        i + 1
    } else {
        i
    }
}

fn scan_heredoc(s: &[char], at: usize) -> (r: usize)
    requires
        at + 2 <= s@.len(),
    ensures
        r == heredoc_end(s@, at as int),
        at + 2 <= r <= s@.len(),
{
    let n: usize = s.len();
    let mut i: usize = at + 2;
    if i < s.len() && s[i] == '-' {
        i += 1;
    }
    let ghost a = i;
    while i < s.len() && s[i] == ' '
        invariant
            a <= i <= s@.len(),
            after_blanks(s@, i as int) == after_blanks(s@, a as int),
        decreases s@.len() - i,
    {
        i += 1;
    }
    let b: usize = i;
    let tag: &[char];
    let rest: usize;
    if b < s.len() && (s[b] == '\'' || s[b] == '"') {
        let e: usize = find_char(s, s[b], b + 1);
        tag = slice_subrange(s, b + 1, e);
        rest = if e < s.len() {
            e + 1
        } else {
            e
        };
    } else {
        let mut e: usize = b;
        while e < s.len() && (s[e].is_alphanumeric() || s[e] == '_')
            invariant
                b <= e <= s@.len(),
                after_tag(s@, e as int) == after_tag(s@, b as int),
            decreases s@.len() - e,
        {
            e += 1;
        }
        tag = slice_subrange(s, b, e);
        rest = e;
    }
    let first: usize = find_char(s, '\n', rest);
    let mut k: usize = first;
    while k < n
        invariant
            at + 2 <= first <= k <= s@.len(),
            n == s@.len(),
            heredoc_lines(s@, first as int, tag@) == heredoc_end(s@, at as int),
            heredoc_lines(s@, k as int, tag@) == heredoc_lines(s@, first as int, tag@),
        decreases s@.len() - k,
    {
        let m: usize = find_char(s, '\n', k + 1);
        if same_chars(slice_subrange(s, k + 1, m), tag) {
            return m;
        }
        k = m;
    }
    k
}

fn scan_substitution(s: &[char], from: usize) -> (r: usize)
    requires
        2 <= from <= s@.len(),
    ensures
        r == substitution_end(s@, from as int, 1),
        from <= r <= s@.len(),
{
    let mut i: usize = from;
    let mut depth: usize = 1;
    while i < s.len() && depth > 0
        invariant
            2 <= from <= i <= s@.len(),
            depth <= i - from + 1,
            substitution_end(s@, i as int, depth as nat) == substitution_end(s@, from as int, 1),
        decreases s@.len() - i,
    {
        let c: char = s[i];
        if c == '(' {
            depth += 1;
            i += 1;
        } else if c == ')' {
            depth -= 1;
            i += 1;
        } else if c == '\'' || c == '"' {
            i = scan_quoted(s, i + 1, c);
        } else if c == '<' && s.len() - i > 1 && s[i + 1] == '<' {
            i = scan_heredoc(s, i);
        } else {
            i += 1;
        }
    }
    i
}

fn scan_double_quoted(s: &[char], from: usize) -> (r: (Vec<char>, usize))
    requires
        from <= s@.len(),
    ensures
        (r.0@, r.1 as int) == double_quoted(s@, from as int, seq![]),
        from <= r.1 <= s@.len(),
{
    let mut text: Vec<char> = Vec::new();
    let mut i: usize = from;
    while i < s.len()
        invariant
            from <= i <= s@.len(),
            double_quoted(s@, i as int, text@) == double_quoted(s@, from as int, seq![]),
        decreases s@.len() - i,
    {
        let c: char = s[i];
        if c == '"' {
            return (text, i + 1);
        } else if c == '\\' && s.len() - i > 1 {
            let next: char = s[i + 1];
            if !(next == '"' || next == '\\' || next == '$' || next == '`') {
                text.push('\\');
            }
            text.push(next);
            i += 2;
        } else if c == '$' && s.len() - i > 1 && s[i + 1] == '(' {
            let j: usize = scan_substitution(s, i + 2);
            push_all(&mut text, slice_subrange(s, i, j));
            i = j;
        } else if c == '`' {
            let j: usize = scan_quoted(s, i + 1, '`');
            push_all(&mut text, slice_subrange(s, i, j));
            i = j;
        } else {
            text.push(c);
            i += 1;
        }
    }
    (text, i)
}

/// The word being read, as the scanner holds it.
spec fn current(has_word: bool, text: Seq<char>, start: usize) -> Option<Word> {
    if has_word {
        Some(Word { text, start: start as int })
    } else {
        None
    }
}

/// The tokens already done, with one more.
proof fn lemma_one_more(s: Seq<char>, done: Seq<TokenV>, t: TokenV)
    ensures
        all_in_bytes(s, done.push(t)) == all_in_bytes(s, done).push(in_bytes(s, t)),
{
    assert(all_in_bytes(s, done.push(t)) =~= all_in_bytes(s, done).push(in_bytes(s, t)));
}

/// Where each character of a command begins, and behind them where the command ends.
fn offsets(command: &str, s: &[char]) -> (r: Vec<usize>)
    requires
        s@ == command@,
    ensures
        r@.len() == s@.len() + 1,
        forall|i: int| 0 <= i <= s@.len() ==> #[trigger] r@[i] == offset(s@, i),
{
    let total: usize = command.as_bytes().len();
    let mut r: Vec<usize> = Vec::new();
    let mut at: usize = 0;
    let mut i: usize = 0;
    r.push(0);
    assert(s@.take(0) =~= seq![]);
    assert(s@.skip(0) =~= s@);
    while i < s.len()
        invariant
            i <= s@.len(),
            total == byte_len(s@),
            at == offset(s@, i as int),
            at + byte_len(s@.skip(i as int)) == total,
            r@.len() == i + 1,
            forall|k: int| 0 <= k <= i ==> #[trigger] r@[k] == offset(s@, k),
        decreases s@.len() - i,
    {
        proof {
            lemma_first_char(s@.skip(i as int));
            assert(s@.skip(i as int).skip(1) =~= s@.skip(i + 1));
            lemma_last_char(s@.take(i + 1));
            assert(s@.take(i + 1).drop_last() =~= s@.take(i as int));
        }
        at = at + char_width(s[i]);
        r.push(at);
        i += 1;
    }
    r
}

/// Puts the word being read, which ends in front of the `end`th character, behind the tokens.
fn push_word(
    tokens: &mut Vec<Token>,
    has_word: bool,
    text: &Vec<char>,
    start: usize,
    end: usize,
    at: &Vec<usize>,
    Ghost(s): Ghost<Seq<char>>,
    Ghost(done): Ghost<Seq<TokenV>>,
)
    requires
        start <= s.len(),
        end <= s.len(),
        at@.len() == s.len() + 1,
        forall|i: int| 0 <= i <= s.len() ==> #[trigger] at@[i] == offset(s, i),
        toks(old(tokens)@) == all_in_bytes(s, done),
    ensures
        toks(final(tokens)@) == all_in_bytes(
            s,
            flushed(current(has_word, text@, start), end as int, done),
        ),
{
    if has_word {
        tokens.push(
            Token {
                text: string_of(text.as_slice()),
                is_separator: false,
                start: at[start],
                end: at[end],
            },
        );
        assert(toks(tokens@) =~= toks(old(tokens)@).push(tokens@.last()@));
        proof {
            lemma_one_more(
                s,
                done,
                TokenV {
                    text: text@,
                    is_separator: false,
                    start: start as int,
                    end: end as int,
                },
            );
        }
    }
}

fn push_separator(
    tokens: &mut Vec<Token>,
    text: String,
    start: usize,
    end: usize,
    at: &Vec<usize>,
    Ghost(s): Ghost<Seq<char>>,
    Ghost(done): Ghost<Seq<TokenV>>,
)
    requires
        start <= s.len(),
        end <= s.len(),
        at@.len() == s.len() + 1,
        forall|i: int| 0 <= i <= s.len() ==> #[trigger] at@[i] == offset(s, i),
        toks(old(tokens)@) == all_in_bytes(s, done),
    ensures
        toks(final(tokens)@) == all_in_bytes(
            s,
            done.push(separator(text@, start as int, end as int)),
        ),
{
    proof {
        lemma_one_more(s, done, separator(text@, start as int, end as int));
    }
    tokens.push(Token { text, is_separator: true, start: at[start], end: at[end] });
    assert(toks(tokens@) =~= toks(old(tokens)@).push(tokens@.last()@));
}

fn one_char(c: char) -> (s: String)
    ensures
        s@ == seq![c],
{
    let mut s: String = String::new();
    s.push(c);
    assert(s@ =~= seq![c]);
    s
}

/// Shell-aware tokenizer. Quoted text keeps its literal content; a command
/// substitution is kept verbatim, `$(` and `)` or the backticks among it, so that a
/// here-doc commit message stays one token that [`unwrap_heredoc`] can pick apart.
pub fn tokenize(command: &str) -> (r: Vec<Token>)
    ensures
        toks(r@) == tokens_of(command@),
{
    let v: Vec<char> = chars_of(command);
    let s: &[char] = v.as_slice();
    let at: Vec<usize> = offsets(command, s);
    let ghost mut done: Seq<TokenV> = seq![];
    let mut tokens: Vec<Token> = Vec::new();
    let mut text: Vec<char> = Vec::new();
    let mut start: usize = 0;
    let mut has_word: bool = false;
    let mut i: usize = 0;
    assert(toks(tokens@) =~= all_in_bytes(s@, done));
    while i < s.len()
        invariant
            i <= s@.len(),
            start <= s@.len(),
            at@.len() == s@.len() + 1,
            forall|k: int| 0 <= k <= s@.len() ==> #[trigger] at@[k] == offset(s@, k),
            !has_word ==> text@.len() == 0,
            lex(s@, i as int, current(has_word, text@, start), done) == char_tokens(s@),
            toks(tokens@) == all_in_bytes(s@, done),
        decreases s@.len() - i,
    {
        let c: char = s[i];
        let ghost cur = current(has_word, text@, start);
        if c == ' ' || c == '\t' || c == '\r' {
            push_word(&mut tokens, has_word, &text, start, i, &at, Ghost(s@), Ghost(done));
            proof {
                done = flushed(cur, i as int, done);
            }
            text.clear();
            has_word = false;
            i += 1;
        } else if c == '\n' || c == ';' {
            push_word(&mut tokens, has_word, &text, start, i, &at, Ghost(s@), Ghost(done));
            proof {
                done = flushed(cur, i as int, done);
            }
            text.clear();
            has_word = false;
            push_separator(&mut tokens, one_char(';'), i, i + 1, &at, Ghost(s@), Ghost(done));
            proof {
                done = done.push(separator(seq![';'], i as int, i + 1));
            }
            i += 1;
        } else if c == '(' || c == ')' {
            push_word(&mut tokens, has_word, &text, start, i, &at, Ghost(s@), Ghost(done));
            proof {
                done = flushed(cur, i as int, done);
            }
            text.clear();
            has_word = false;
            push_separator(&mut tokens, one_char(c), i, i + 1, &at, Ghost(s@), Ghost(done));
            proof {
                done = done.push(separator(seq![c], i as int, i + 1));
            }
            i += 1;
        } else if c == '&' || c == '|' {
            push_word(&mut tokens, has_word, &text, start, i, &at, Ghost(s@), Ghost(done));
            proof {
                done = flushed(cur, i as int, done);
            }
            text.clear();
            has_word = false;
            let mut op: String = one_char(c);
            if s.len() - i > 1 && s[i + 1] == c {
                op.push(c);
                assert(op@ =~= seq![c, c]);
                push_separator(&mut tokens, op, i, i + 2, &at, Ghost(s@), Ghost(done));
                proof {
                    done = done.push(separator(seq![c, c], i as int, i + 2));
                }
                i += 2;
            } else {
                push_separator(&mut tokens, op, i, i + 1, &at, Ghost(s@), Ghost(done));
                proof {
                    done = done.push(separator(seq![c], i as int, i + 1));
                }
                i += 1;
            }
        } else if c == '\\' && s.len() - i > 1 && s[i + 1] == '\n' {
            // A line continuation: both characters vanish and the word goes on.
            i += 2;
        } else if c == '\\' && s.len() - i > 2 && s[i + 1] == '\r' && s[i + 2] == '\n' {
            i += 3;
        } else {
            if !has_word {
                has_word = true;
                start = i;
            }
            let ghost w = opened(cur, i as int);
            assert(w.text =~= text@);
            if c == '\'' {
                let j: usize = find_char(s, '\'', i + 1);
                push_all(&mut text, slice_subrange(s, i + 1, j));
                i = if j < s.len() {
                    j + 1
                } else {
                    j
                };
            } else if c == '"' {
                let (quoted, j) = scan_double_quoted(s, i + 1);
                push_all(&mut text, quoted.as_slice());
                i = j;
            } else if c == '\\' {
                if s.len() - i > 1 {
                    text.push(s[i + 1]);
                    assert(text@ =~= w.text + seq![s@[i + 1]]);
                    i += 2;
                } else {
                    assert(text@ =~= w.text + seq![]);
                    i += 1;
                }
            } else if c == '$' && s.len() - i > 1 && s[i + 1] == '(' {
                let j: usize = scan_substitution(s, i + 2);
                push_all(&mut text, slice_subrange(s, i, j));
                i = j;
            } else if c == '`' {
                let j: usize = scan_quoted(s, i + 1, '`');
                push_all(&mut text, slice_subrange(s, i, j));
                i = j;
            } else {
                text.push(c);
                assert(text@ =~= w.text + seq![c]);
                i += 1;
            }
        }
    }
    push_word(&mut tokens, has_word, &text, start, s.len(), &at, Ghost(s@), Ghost(done));
    tokens
}

// ---------------------------------------------------------------------------
// Quoting
// ---------------------------------------------------------------------------

/// The characters that need no quoting in a shell word.
pub open spec fn shell_safe(c: char) -> bool {
    ||| is_ascii_alnum(c)
    ||| c == '_'
    ||| c == '-'
    ||| c == '.'
    ||| c == '/'
    ||| c == ':'
    ||| c == '='
    ||| c == '@'
    ||| c == '%'
    ||| c == '+'
    ||| c == ','
}

pub open spec fn plain_word(s: Seq<char>) -> bool {
    s.len() > 0 && forall|i: int| 0 <= i < s.len() ==> shell_safe(#[trigger] s[i])
}

/// `s[i..]` with each single quote closed, escaped and opened again.
pub open spec fn requoted(s: Seq<char>, i: int) -> Seq<char>
    decreases s.len() - i,
{
    if i < 0 || i >= s.len() {
        seq![]
    } else if s[i] == '\'' {
        seq!['\'', '\\', '\'', '\''] + requoted(s, i + 1)
    } else {
        seq![s[i]] + requoted(s, i + 1)
    }
}

/// `value` as one POSIX shell word.
pub open spec fn quoted(value: Seq<char>) -> Seq<char> {
    if plain_word(value) {
        value
    } else {
        seq!['\''] + requoted(value, 0) + seq!['\'']
    }
}

fn safe_char(c: char) -> (b: bool)
    ensures
        b == shell_safe(c),
{
    ascii_alnum(c) || c == '_' || c == '-' || c == '.' || c == '/' || c == ':' || c == '=' || c
        == '@' || c == '%' || c == '+' || c == ','
}

fn is_plain_word(s: &[char]) -> (b: bool)
    ensures
        b == plain_word(s@),
{
    let mut i: usize = 0;
    while i < s.len()
        invariant
            i <= s@.len(),
            forall|k: int| 0 <= k < i ==> shell_safe(#[trigger] s@[k]),
        decreases s@.len() - i,
    {
        if !safe_char(s[i]) {
            assert(!shell_safe(s@[i as int]));
            return false;
        }
        i += 1;
    }
    s.len() > 0
}

/// Quote a value for safe use in a POSIX shell command.
pub fn sh_quote(value: &str) -> (r: String)
    ensures
        r@ == quoted(value@),
{
    let v: Vec<char> = chars_of(value);
    let s: &[char] = v.as_slice();
    if is_plain_word(s) {
        return text_of(value);
    }
    let mut out: Vec<char> = Vec::new();
    out.push('\'');
    let mut i: usize = 0;
    assert(out@ + requoted(s@, 0) =~= seq!['\''] + requoted(s@, 0));
    while i < s.len()
        invariant
            i <= s@.len(),
            out@ + requoted(s@, i as int) == seq!['\''] + requoted(s@, 0),
        decreases s@.len() - i,
    {
        let ghost before = out@;
        if s[i] == '\'' {
            out.push('\'');
            out.push('\\');
            out.push('\'');
            out.push('\'');
            assert(out@ =~= before + seq!['\'', '\\', '\'', '\'']);
        } else {
            out.push(s[i]);
            assert(out@ =~= before + seq![s@[i as int]]);
        }
        assert(before + requoted(s@, i as int) =~= out@ + requoted(s@, i + 1));
        i += 1;
    }
    assert(out@ =~= seq!['\''] + requoted(s@, 0));
    out.push('\'');
    assert(out@ =~= seq!['\''] + requoted(s@, 0) + seq!['\'']);
    string_of(out.as_slice())
}

// ---------------------------------------------------------------------------
// Here-docs
// ---------------------------------------------------------------------------

/// What stands behind `p` in a text that begins with it.
pub open spec fn behind(s: Seq<char>, p: Seq<char>) -> Option<Seq<char>> {
    if has_prefix(s, p) {
        Some(s.subrange(p.len() as int, s.len() as int))
    } else {
        None
    }
}

/// What stands between `$(` and `)` in a text that begins and ends with them.
pub open spec fn substituted(s: Seq<char>) -> Option<Seq<char>> {
    if s.len() >= 3 && s[0] == '$' && s[1] == '(' && s[s.len() - 1] == ')' {
        Some(s.subrange(2, s.len() - 1))
    } else {
        None
    }
}

/// A here-doc tag and what stands behind it: in single or double quotes, or bare.
pub open spec fn tag_and_rest(s: Seq<char>) -> Option<(Seq<char>, Seq<char>)> {
    if s.len() > 0 && (s[0] == '\'' || s[0] == '"') {
        let e = next_char(s, s[0], 1);
        if e < s.len() {
            Some((s.subrange(1, e), s.subrange(e + 1, s.len() as int)))
        } else {
            None
        }
    } else {
        let e = after_tag(s, 0);
        Some((s.subrange(0, e), s.subrange(e, s.len() as int)))
    }
}

/// The lines of a here-doc body behind the first line feed of `s`, up to the last line
/// feed that `tag` follows, when nothing but white space follows that.
pub open spec fn heredoc_body(s: Seq<char>, tag: Seq<char>) -> Option<Seq<char>> {
    let n = next_char(s, '\n', 0);
    if n >= s.len() {
        None
    } else {
        let body = s.subrange(n + 1, s.len() as int);
        let terminator = seq!['\n'] + tag;
        match last_match(body, terminator) {
            Some(end) => if is_blank(
                body.subrange(end + terminator.len(), body.len() as int),
            ) {
                Some(body.subrange(0, end))
            } else {
                None
            },
            None => None,
        }
    }
}

/// The body of a `$(cat <<'TAG' … TAG)` substitution.
pub open spec fn heredoc_of(value: Seq<char>) -> Option<Seq<char>> {
    match substituted(value) {
        None => None,
        Some(inner) => match behind(trim(inner), seq!['c', 'a', 't']) {
            None => None,
            Some(rest) => match behind(trim_start(rest), seq!['<', '<']) {
                None => None,
                Some(rest) => {
                    let rest = if holds(rest, 0, '-') {
                        rest.subrange(1, rest.len() as int)
                    } else {
                        rest
                    };
                    match tag_and_rest(trim_start(rest)) {
                        None => None,
                        Some((tag, after)) => if tag.len() == 0 {
                            None
                        } else {
                            heredoc_body(after, tag)
                        },
                    }
                },
            },
        },
    }
}

pub fn unwrap_substitution<'a>(s: &'a [char]) -> (r: Option<&'a [char]>)
    ensures
        match r {
            Some(t) => substituted(s@) == Some(t@),
            None => substituted(s@) is None,
        },
{
    if s.len() >= 3 && s[0] == '$' && s[1] == '(' && s[s.len() - 1] == ')' {
        Some(slice_subrange(s, 2, s.len() - 1))
    } else {
        None
    }
}

fn take_prefix<'a>(s: &'a [char], p: &Vec<char>) -> (r: Option<&'a [char]>)
    ensures
        match r {
            Some(t) => behind(s@, p@) == Some(t@),
            None => behind(s@, p@) is None,
        },
{
    if starts_with(s, p.as_slice()) {
        Some(slice_subrange(s, p.len(), s.len()))
    } else {
        None
    }
}

fn body_of(s: &[char], tag: &[char]) -> (r: Option<String>)
    ensures
        match r {
            Some(t) => heredoc_body(s@, tag@) == Some(t@),
            None => heredoc_body(s@, tag@) is None,
        },
{
    let n: usize = find_char(s, '\n', 0);
    if n == s.len() {
        return None;
    }
    let body: &[char] = slice_subrange(s, n + 1, s.len());
    let mut terminator: Vec<char> = Vec::new();
    terminator.push('\n');
    push_all(&mut terminator, tag);
    assert(terminator@ =~= seq!['\n'] + tag@);
    match find_last_text(body, terminator.as_slice()) {
        Some(end) => {
            let after: &[char] = slice_subrange(body, end + terminator.len(), body.len());
            if trimmed(after).len() == 0 {
                Some(part_of(body, 0, end))
            } else {
                None
            }
        },
        None => None,
    }
}

/// If `value` is a `$(cat <<'TAG' … TAG)` substitution, the agent CLI's usual way of
/// passing multi-line commit messages and PR bodies, the body.
pub fn unwrap_heredoc(value: &str) -> (r: Option<String>)
    ensures
        match r {
            Some(t) => heredoc_of(value@) == Some(t@),
            None => heredoc_of(value@) is None,
        },
{
    let v: Vec<char> = chars_of(value);
    let inner: &[char] = match unwrap_substitution(v.as_slice()) {
        Some(t) => t,
        None => return None,
    };
    let cat: Vec<char> = vec!['c', 'a', 't'];
    assert(cat@ =~= seq!['c', 'a', 't']);
    let rest: &[char] = match take_prefix(trimmed(inner), &cat) {
        Some(t) => t,
        None => return None,
    };
    let arrows: Vec<char> = vec!['<', '<'];
    assert(arrows@ =~= seq!['<', '<']);
    let rest: &[char] = match take_prefix(trimmed_start(rest), &arrows) {
        Some(t) => t,
        None => return None,
    };
    let rest: &[char] = if rest.len() > 0 && rest[0] == '-' {
        slice_subrange(rest, 1, rest.len())
    } else {
        rest
    };
    let rest: &[char] = trimmed_start(rest);
    if rest.len() > 0 && (rest[0] == '\'' || rest[0] == '"') {
        let e: usize = find_char(rest, rest[0], 1);
        if e == rest.len() || e == 1 {
            return None;
        }
        body_of(slice_subrange(rest, e + 1, rest.len()), slice_subrange(rest, 1, e))
    } else {
        let mut e: usize = 0;
        while e < rest.len() && (rest[e].is_alphanumeric() || rest[e] == '_')
            invariant
                e <= rest@.len(),
                after_tag(rest@, e as int) == after_tag(rest@, 0),
            decreases rest@.len() - e,
        {
            e += 1;
        }
        if e == 0 {
            return None;
        }
        body_of(slice_subrange(rest, e, rest.len()), slice_subrange(rest, 0, e))
    }
}

} // verus!
