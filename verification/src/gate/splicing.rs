//! Laws of the tokenizer: a quoted value is one word again, and a value put in the place
//! of a token leaves every other token of the command as it was.
use crate::clip::{byte_len, lemma_first_char, lemma_more_bytes};
use crate::gate::shell::{
    after_blanks, after_tag, char_tokens, double_quoted, escapable, flushed, grown, heredoc_end,
    heredoc_lines, holds, in_bytes, lex, offset, opened, plain_word, quoted, quoted_end, requoted,
    separator, shell_safe, substitution_end, tag_char, tokens_of, TokenV, Word,
};
use crate::text::{lemma_next_char, next_char};
use vstd::prelude::*;
use vstd::utf8::encode_utf8;

verus! {

// ---------------------------------------------------------------------------
// One step of the tokenizer
// ---------------------------------------------------------------------------

proof fn lemma_quoted_end(s: Seq<char>, i: int, q: char)
    requires
        0 <= i <= s.len(),
    ensures
        i <= quoted_end(s, i, q) <= s.len(),
        i < s.len() ==> i < quoted_end(s, i, q),
    decreases s.len() - i,
{
    if i < s.len() && s[i] != q {
        if q != '\'' && s[i] == '\\' && i + 1 < s.len() {
            lemma_quoted_end(s, i + 2, q);
        } else {
            lemma_quoted_end(s, i + 1, q);
        }
    }
}

proof fn lemma_after_blanks(s: Seq<char>, i: int)
    requires
        0 <= i <= s.len(),
    ensures
        i <= after_blanks(s, i) <= s.len(),
    decreases s.len() - i,
{
    if holds(s, i, ' ') {
        lemma_after_blanks(s, i + 1);
    }
}

proof fn lemma_after_tag(s: Seq<char>, i: int)
    requires
        0 <= i <= s.len(),
    ensures
        i <= after_tag(s, i) <= s.len(),
    decreases s.len() - i,
{
    if i < s.len() && tag_char(s[i]) {
        lemma_after_tag(s, i + 1);
    }
}

proof fn lemma_heredoc_lines(s: Seq<char>, i: int, tag: Seq<char>)
    requires
        0 <= i <= s.len(),
    ensures
        i <= heredoc_lines(s, i, tag) <= s.len(),
        i < s.len() ==> i < heredoc_lines(s, i, tag),
    decreases s.len() - i,
{
    if i < s.len() {
        lemma_next_char(s, '\n', i + 1);
        let m = next_char(s, '\n', i + 1);
        if s.subrange(i + 1, m) != tag {
            lemma_heredoc_lines(s, m, tag);
        }
    }
}

proof fn lemma_heredoc_end(s: Seq<char>, i: int)
    requires
        0 <= i,
        i + 2 <= s.len(),
    ensures
        i + 2 <= heredoc_end(s, i) <= s.len(),
{
    let a = if holds(s, i + 2, '-') {
        i + 3
    } else {
        i + 2
    };
    lemma_after_blanks(s, a);
    let b = after_blanks(s, a);
    if holds(s, b, '\'') || holds(s, b, '"') {
        lemma_next_char(s, s[b], b + 1);
        let e = next_char(s, s[b], b + 1);
        let f = if e < s.len() {
            e + 1
        } else {
            e
        };
        lemma_next_char(s, '\n', f);
        lemma_heredoc_lines(s, next_char(s, '\n', f), s.subrange(b + 1, e));
    } else {
        lemma_after_tag(s, b);
        let e = after_tag(s, b);
        lemma_next_char(s, '\n', e);
        lemma_heredoc_lines(s, next_char(s, '\n', e), s.subrange(b, e));
    }
}

proof fn lemma_substitution_end(s: Seq<char>, i: int, depth: nat)
    requires
        0 <= i <= s.len(),
    ensures
        i <= substitution_end(s, i, depth) <= s.len(),
        i < s.len() && depth > 0 ==> i < substitution_end(s, i, depth),
    decreases s.len() - i,
{
    if i < s.len() && depth > 0 {
        if s[i] == '(' {
            lemma_substitution_end(s, i + 1, depth + 1);
        } else if s[i] == ')' {
            lemma_substitution_end(s, i + 1, (depth - 1) as nat);
        } else if s[i] == '\'' || s[i] == '"' {
            lemma_quoted_end(s, i + 1, s[i]);
            lemma_substitution_end(s, quoted_end(s, i + 1, s[i]), depth);
        } else if s[i] == '<' && holds(s, i + 1, '<') {
            lemma_heredoc_end(s, i);
            lemma_substitution_end(s, heredoc_end(s, i), depth);
        } else {
            lemma_substitution_end(s, i + 1, depth);
        }
    }
}

proof fn lemma_double_quoted(s: Seq<char>, i: int, acc: Seq<char>)
    requires
        0 <= i <= s.len(),
    ensures
        i <= double_quoted(s, i, acc).1 <= s.len(),
    decreases s.len() - i,
{
    if i < s.len() && s[i] != '"' {
        if s[i] == '\\' && i + 1 < s.len() && escapable(s[i + 1]) {
            lemma_double_quoted(s, i + 2, acc.push(s[i + 1]));
        } else if s[i] == '\\' && i + 1 < s.len() {
            lemma_double_quoted(s, i + 2, acc.push('\\').push(s[i + 1]));
        } else if s[i] == '$' && holds(s, i + 1, '(') {
            lemma_substitution_end(s, i + 2, 1);
            let j = substitution_end(s, i + 2, 1);
            lemma_double_quoted(s, j, acc + s.subrange(i, j));
        } else if s[i] == '`' {
            lemma_quoted_end(s, i + 1, '`');
            let j = quoted_end(s, i + 1, '`');
            lemma_double_quoted(s, j, acc + s.subrange(i, j));
        } else {
            lemma_double_quoted(s, i + 1, acc.push(s[i]));
        }
    }
}

/// A character at which a word ends.
pub open spec fn ends_word(c: char) -> bool {
    c == ' ' || c == '\t' || c == '\r' || c == '\n' || c == ';' || c == '(' || c == ')' || c
        == '&' || c == '|'
}

/// The separator that `s[i]`, a character that ends a word, begins, and the position
/// behind it.
spec fn separator_at(s: Seq<char>, i: int) -> (Seq<TokenV>, int) {
    let c = s[i];
    if c == ' ' || c == '\t' || c == '\r' {
        (seq![], i + 1)
    } else if c == '\n' || c == ';' {
        (seq![separator(seq![';'], i, i + 1)], i + 1)
    } else if c == '(' || c == ')' {
        (seq![separator(seq![c], i, i + 1)], i + 1)
    } else if holds(s, i + 1, c) {
        (seq![separator(seq![c, c], i, i + 2)], i + 2)
    } else {
        (seq![separator(seq![c], i, i + 1)], i + 1)
    }
}

/// What `s[i]`, a character inside a word, adds to it, and the position behind that;
/// nothing where a line goes on.
spec fn piece_at(s: Seq<char>, i: int) -> (Option<Seq<char>>, int) {
    let c = s[i];
    if c == '\'' {
        let j = next_char(s, '\'', i + 1);
        if j < s.len() {
            (Some(s.subrange(i + 1, j)), j + 1)
        } else {
            (Some(s.subrange(i + 1, s.len() as int)), s.len() as int)
        }
    } else if c == '"' {
        let (text, j) = double_quoted(s, i + 1, seq![]);
        (Some(text), j)
    } else if c == '\\' && holds(s, i + 1, '\n') {
        (None, i + 2)
    } else if c == '\\' && holds(s, i + 1, '\r') && holds(s, i + 2, '\n') {
        (None, i + 3)
    } else if c == '\\' && i + 1 < s.len() {
        (Some(seq![s[i + 1]]), i + 2)
    } else if c == '\\' {
        (Some(seq![]), i + 1)
    } else if c == '$' && holds(s, i + 1, '(') {
        let j = substitution_end(s, i + 2, 1);
        (Some(s.subrange(i, j)), j)
    } else if c == '`' {
        let j = quoted_end(s, i + 1, '`');
        (Some(s.subrange(i, j)), j)
    } else {
        (Some(seq![c]), i + 1)
    }
}

/// The word being read behind a piece of it.
spec fn word_on(cur: Option<Word>, i: int, piece: Option<Seq<char>>) -> Option<Word> {
    match piece {
        Some(text) => grown(cur, i, text),
        None => cur,
    }
}

proof fn lemma_step(s: Seq<char>, i: int, cur: Option<Word>, done: Seq<TokenV>)
    requires
        0 <= i < s.len(),
    ensures
        if ends_word(s[i]) {
            let (seps, j) = separator_at(s, i);
            &&& i < j <= s.len()
            &&& lex(s, i, cur, done) == lex(s, j, None, flushed(cur, i, done) + seps)
        } else {
            let (piece, j) = piece_at(s, i);
            &&& i < j <= s.len()
            &&& lex(s, i, cur, done) == lex(s, j, word_on(cur, i, piece), done)
        },
{
    let c = s[i];
    if ends_word(c) {
        let (seps, j) = separator_at(s, i);
        if seps.len() == 0 {
            assert(flushed(cur, i, done) + seps =~= flushed(cur, i, done));
        } else {
            assert(flushed(cur, i, done) + seps =~= flushed(cur, i, done).push(seps[0]));
        }
    } else {
        if c == '\'' {
            lemma_next_char(s, '\'', i + 1);
        } else if c == '"' {
            lemma_double_quoted(s, i + 1, seq![]);
        } else if c == '$' && holds(s, i + 1, '(') {
            lemma_substitution_end(s, i + 2, 1);
        } else if c == '`' {
            lemma_quoted_end(s, i + 1, '`');
        }
    }
}

/// The tokens of `s[i..]` when `cur` is being read.
pub open spec fn rest(s: Seq<char>, i: int, cur: Option<Word>) -> Seq<TokenV> {
    lex(s, i, cur, seq![])
}

/// The token of a word that ends at `end`.
pub open spec fn word_token(w: Word, end: int) -> TokenV {
    TokenV { text: w.text, is_separator: false, start: w.start, end }
}

/// The token of the word being read, where there is one.
spec fn ended(cur: Option<Word>, end: int) -> Seq<TokenV> {
    match cur {
        Some(w) => seq![word_token(w, end)],
        None => seq![],
    }
}

proof fn lemma_done(s: Seq<char>, i: int, cur: Option<Word>, done: Seq<TokenV>)
    requires
        0 <= i <= s.len(),
    ensures
        lex(s, i, cur, done) == done + rest(s, i, cur),
    decreases s.len() - i,
{
    let none = Seq::<TokenV>::empty();
    if i >= s.len() {
        assert(flushed(cur, s.len() as int, done) =~= done + flushed(cur, s.len() as int, none));
    } else {
        lemma_step(s, i, cur, done);
        lemma_step(s, i, cur, none);
        if ends_word(s[i]) {
            let (seps, j) = separator_at(s, i);
            lemma_done(s, j, None, flushed(cur, i, done) + seps);
            lemma_done(s, j, None, flushed(cur, i, none) + seps);
            let r = rest(s, j, None);
            assert(flushed(cur, i, done) + seps + r =~= done + (flushed(cur, i, none) + seps
                + r));
        } else {
            let (piece, j) = piece_at(s, i);
            lemma_done(s, j, word_on(cur, i, piece), done);
        }
    }
}

/// The tokens of what is left, one step on.
proof fn lemma_rest(s: Seq<char>, i: int, cur: Option<Word>)
    requires
        0 <= i <= s.len(),
    ensures
        if i >= s.len() {
            rest(s, i, cur) == ended(cur, i)
        } else if ends_word(s[i]) {
            let (seps, j) = separator_at(s, i);
            &&& i < j <= s.len()
            &&& rest(s, i, cur) == ended(cur, i) + seps + rest(s, j, None)
        } else {
            let (piece, j) = piece_at(s, i);
            &&& i < j <= s.len()
            &&& rest(s, i, cur) == rest(s, j, word_on(cur, i, piece))
        },
{
    let none = Seq::<TokenV>::empty();
    if i >= s.len() {
        assert(flushed(cur, i, none) =~= ended(cur, i));
    } else {
        lemma_step(s, i, cur, none);
        if ends_word(s[i]) {
            let (seps, j) = separator_at(s, i);
            assert(flushed(cur, i, none) =~= ended(cur, i));
            lemma_done(s, j, None, flushed(cur, i, none) + seps);
        }
    }
}


// ---------------------------------------------------------------------------
// Where tokens stand
// ---------------------------------------------------------------------------

/// Whether the word being read began before `i`.
spec fn begun(cur: Option<Word>, i: int) -> bool {
    cur matches Some(w) ==> w.start < i
}

/// The tokens of what is left stand in it, in their order; the first one is the word being
/// read, and no other word begins where that one is being read.
proof fn lemma_spans(s: Seq<char>, i: int, cur: Option<Word>)
    requires
        0 <= i <= s.len(),
        begun(cur, i),
    ensures
        ({
            let r = rest(s, i, cur);
            let first = if cur is Some {
                1int
            } else {
                0int
            };
            &&& first <= r.len()
            &&& cur matches Some(w) ==> r[0].start == w.start && !r[0].is_separator && i
                <= r[0].end <= s.len()
            &&& forall|k: int|
                first <= k < r.len() ==> i <= (#[trigger] r[k]).start < r[k].end <= s.len()
            &&& forall|k: int|
                first <= k < r.len() && !(#[trigger] r[k]).is_separator && cur is Some ==> i
                    < r[k].start
            &&& forall|k: int, l: int|
                0 <= k < l < r.len() ==> (#[trigger] r[k]).end <= (#[trigger] r[l]).start
        }),
    decreases s.len() - i,
{
    lemma_rest(s, i, cur);
    if i < s.len() {
        if ends_word(s[i]) {
            let (seps, j) = separator_at(s, i);
            lemma_spans(s, j, None);
        } else {
            let (piece, j) = piece_at(s, i);
            lemma_spans(s, j, word_on(cur, i, piece));
        }
    }
}

/// The word being read ends where a character ends it, and what it is made of does not
/// matter from there on.
proof fn lemma_word_end(s: Seq<char>, i: int, w: Word)
    requires
        0 <= i <= s.len(),
        w.start < i,
    ensures
        ({
            let r = rest(s, i, Some(w));
            &&& r.len() > 0
            &&& i <= r[0].end <= s.len()
            &&& r[0].end < s.len() ==> ends_word(s[r[0].end])
            &&& r[0].start == w.start
            &&& r == rest(s, r[0].end, Some(Word { text: r[0].text, start: w.start }))
        }),
    decreases s.len() - i,
{
    lemma_rest(s, i, Some(w));
    if i < s.len() && !ends_word(s[i]) {
        let (piece, j) = piece_at(s, i);
        lemma_word_end(s, j, word_on(Some(w), i, piece)->0);
    }
}

/// Among the characters every token stands inside the command, none is empty, and they do not
/// overlap.
pub proof fn lemma_chars_in_order(s: Seq<char>, k: int, l: int)
    requires
        0 <= k < char_tokens(s).len(),
        0 <= l < char_tokens(s).len(),
    ensures
        0 <= char_tokens(s)[k].start < char_tokens(s)[k].end <= s.len(),
        k < l ==> char_tokens(s)[k].end <= char_tokens(s)[l].start,
{
    lemma_spans(s, 0, None);
}

proof fn lemma_encoded(a: Seq<char>, b: Seq<char>)
    ensures
        encode_utf8(a + b) == encode_utf8(a) + encode_utf8(b),
    decreases a.len(),
{
    if a.len() == 0 {
        assert(a + b =~= b);
        assert(encode_utf8(a) + encode_utf8(b) =~= encode_utf8(b));
    } else {
        lemma_encoded(a.drop_first(), b);
        assert((a + b).drop_first() =~= a.drop_first() + b);
        assert(encode_utf8(a + b) =~= encode_utf8(a) + encode_utf8(b));
    }
}

/// The bytes between two characters are those of the characters between them.
proof fn lemma_bytes_between(s: Seq<char>, i: int, j: int)
    requires
        0 <= i <= j <= s.len(),
    ensures
        encode_utf8(s).subrange(offset(s, i), offset(s, j)) == encode_utf8(s.subrange(i, j)),
        offset(s, i) <= offset(s, j) <= byte_len(s),
{
    let a = s.take(i);
    let m = s.subrange(i, j);
    let b = s.skip(j);
    lemma_encoded(a, m);
    lemma_encoded(a + m, b);
    assert(a + m =~= s.take(j));
    assert(a + m + b =~= s);
    assert(encode_utf8(s).subrange(offset(s, i), offset(s, j)) =~= encode_utf8(m));
}

/// Every token stands inside the command, none is empty, they do not overlap, and the bytes
/// of each are those of the characters that it was read from.
pub proof fn tokens_stand_in_order(s: Seq<char>, k: int, l: int)
    requires
        0 <= k < tokens_of(s).len(),
        0 <= l < tokens_of(s).len(),
    ensures
        0 <= tokens_of(s)[k].start < tokens_of(s)[k].end <= byte_len(s),
        k < l ==> tokens_of(s)[k].end <= tokens_of(s)[l].start,
        encode_utf8(s).subrange(tokens_of(s)[k].start, tokens_of(s)[k].end) == encode_utf8(
            s.subrange(char_tokens(s)[k].start, char_tokens(s)[k].end),
        ),
{
    lemma_chars_in_order(s, k, l);
    let a = char_tokens(s)[k];
    lemma_bytes_between(s, a.start, a.end);
    lemma_more_bytes(s, a.start, a.end);
    if k < l {
        lemma_chars_in_order(s, l, l);
        lemma_more_bytes(s, a.end, char_tokens(s)[l].start);
    }
}

/// Whether a line goes on behind a backslash at `a`: how many characters say so.
pub open spec fn line_goes_on(s: Seq<char>, a: int) -> int {
    if !holds(s, a, '\\') {
        0
    } else if holds(s, a + 1, '\n') {
        2
    } else if holds(s, a + 1, '\r') && holds(s, a + 2, '\n') {
        3
    } else {
        0
    }
}

/// Whether the character at `x` separates tokens without being one: a blank, or part of a
/// line continuation.
pub open spec fn between_tokens(s: Seq<char>, x: int) -> bool {
    ||| holds(s, x, ' ')
    ||| holds(s, x, '\t')
    ||| holds(s, x, '\r')
    ||| exists|a: int| a <= x < a + #[trigger] line_goes_on(s, a)
}

/// Whether the character at `x` belongs to one of the tokens.
pub open spec fn in_a_token(ts: Seq<TokenV>, x: int) -> bool {
    exists|k: int| 0 <= k < ts.len() && (#[trigger] ts[k]).start <= x < ts[k].end
}

proof fn lemma_between(s: Seq<char>, i: int, cur: Option<Word>, x: int)
    requires
        0 <= i <= x < s.len(),
        begun(cur, i),
    ensures
        in_a_token(rest(s, i, cur), x) || between_tokens(s, x),
    decreases s.len() - i,
{
    let r = rest(s, i, cur);
    lemma_rest(s, i, cur);
    if ends_word(s[i]) {
        let (seps, j) = separator_at(s, i);
        let o = ended(cur, i) + seps;
        let after = rest(s, j, None);
        assert(r == o + after);
        if x < j {
            if seps.len() > 0 {
                assert(r[o.len() - 1] == seps[0]);
            }
        } else {
            lemma_between(s, j, None, x);
            if in_a_token(after, x) {
                let k = choose|k: int|
                    0 <= k < after.len() && (#[trigger] after[k]).start <= x < after[k].end;
                assert(r[o.len() + k] == after[k]);
            }
        }
    } else {
        let (piece, j) = piece_at(s, i);
        let on = word_on(cur, i, piece);
        lemma_spans(s, j, on);
        if x >= j {
            lemma_between(s, j, on, x);
        } else if on is Some {
            assert(r[0].start <= x < r[0].end);
        } else {
            assert(line_goes_on(s, i) == j - i);
        }
    }
}

/// Whatever stands in a command outside its tokens is a blank or continues a line: nothing
/// else is passed over. Of each character of the command, its first byte lies in a token or
/// the character is such a blank.
pub proof fn only_blanks_lie_between_tokens(s: Seq<char>, x: int)
    requires
        0 <= x < s.len(),
    ensures
        in_a_token(tokens_of(s), offset(s, x)) || between_tokens(s, x),
{
    lemma_between(s, 0, None, x);
    let ts = char_tokens(s);
    if in_a_token(ts, x) {
        let k = choose|k: int| 0 <= k < ts.len() && (#[trigger] ts[k]).start <= x < ts[k].end;
        lemma_chars_in_order(s, k, k);
        lemma_more_bytes(s, ts[k].start, x);
        lemma_more_bytes(s, x, ts[k].end);
        let t = tokens_of(s)[k];
        assert(t.start <= offset(s, x) < t.end);
    }
}

// ---------------------------------------------------------------------------
// Quoted values
// ---------------------------------------------------------------------------

/// Whether `w` stands at position `i` of `s`.
pub open spec fn stands_at(s: Seq<char>, w: Seq<char>, i: int) -> bool {
    0 <= i && i + w.len() <= s.len() && s.subrange(i, i + w.len()) == w
}

proof fn lemma_grown(cur: Option<Word>, i: int, a: Seq<char>, j: int, b: Seq<char>)
    ensures
        grown(grown(cur, i, a), j, b) == grown(cur, i, a + b),
{
    assert(opened(cur, i).text + a + b =~= opened(cur, i).text + (a + b));
}

/// Safe characters are read into the word as they stand.
proof fn lemma_plain(s: Seq<char>, p: Seq<char>, i: int, cur: Option<Word>)
    requires
        stands_at(s, p, i),
        p.len() > 0,
        forall|k: int| 0 <= k < p.len() ==> shell_safe(#[trigger] p[k]),
    ensures
        rest(s, i, cur) == rest(s, i + p.len(), grown(cur, i, p)),
    decreases p.len(),
{
    assert(s[i] == s.subrange(i, i + p.len())[0]);
    assert(shell_safe(p[0]));
    lemma_rest(s, i, cur);
    assert(piece_at(s, i) == (Some(seq![p[0]]), i + 1));
    if p.len() == 1 {
        assert(p =~= seq![p[0]]);
    } else {
        let q = p.subrange(1, p.len() as int);
        assert(s.subrange(i + 1, i + 1 + q.len()) =~= q) by {
            assert forall|k: int| 0 <= k < q.len() implies s.subrange(i + 1, i + 1 + q.len())[k]
                == q[k] by {
                assert(s[i + (k + 1)] == s.subrange(i, i + p.len())[k + 1]);
            }
        }
        lemma_plain(s, q, i + 1, grown(cur, i, seq![p[0]]));
        lemma_grown(cur, i, seq![p[0]], i + 1, q);
        assert(seq![p[0]] + q =~= p);
    }
}

/// A run without single quotes is copied.
proof fn lemma_requoted_run(v: Seq<char>, k: int, j: int)
    requires
        0 <= k <= j <= v.len(),
        forall|x: int| k <= x < j ==> v[x] != '\'',
    ensures
        requoted(v, k) == v.subrange(k, j) + requoted(v, j),
    decreases j - k,
{
    if k < j {
        lemma_requoted_run(v, k + 1, j);
        assert(seq![v[k]] + (v.subrange(k + 1, j) + requoted(v, j)) =~= v.subrange(k, j)
            + requoted(v, j));
    } else {
        assert(v.subrange(k, j) + requoted(v, j) =~= requoted(v, j));
    }
}

/// A value in single quotes is read into the word without them.
proof fn lemma_single_quoted(s: Seq<char>, v: Seq<char>, k: int, i: int, cur: Option<Word>)
    requires
        0 <= k <= v.len(),
        stands_at(s, seq!['\''] + requoted(v, k) + seq!['\''], i),
    ensures
        rest(s, i, cur) == rest(
            s,
            i + requoted(v, k).len() + 2,
            grown(cur, i, v.subrange(k, v.len() as int)),
        ),
    decreases v.len() - k,
{
    let q = seq!['\''] + requoted(v, k) + seq!['\''];
    let n = v.len() as int;
    lemma_next_char(v, '\'', k);
    let j = next_char(v, '\'', k);
    lemma_requoted_run(v, k, j);
    // Up to the next quote of the value.
    assert forall|x: int| 0 <= x < q.len() implies s[i + x] == q[x] by {
        assert(s.subrange(i, i + q.len())[x] == s[i + x]);
    }
    assert(s[i] == q[0]);
    lemma_rest(s, i, cur);
    lemma_next_char(s, '\'', i + 1);
    let e = i + 1 + (j - k);
    assert(s[e] == '\'') by {
        assert(s[i + (1 + (j - k))] == q[1 + (j - k)]);
        if j < n {
            assert(requoted(v, j) == seq!['\'', '\\', '\'', '\''] + requoted(v, j + 1));
        } else {
            assert(requoted(v, j).len() == 0);
        }
    }
    assert forall|x: int| i + 1 <= x < e implies s[x] != '\'' by {
        assert(s[i + (x - i)] == q[x - i]);
        assert(q[x - i] == v[k + (x - i - 1)]);
    }
    assert(next_char(s, '\'', i + 1) == e);
    assert(s.subrange(i + 1, e) =~= v.subrange(k, j)) by {
        assert forall|x: int| 0 <= x < j - k implies s.subrange(i + 1, e)[x] == v.subrange(k, j)[x] by {
            assert(s[i + (1 + x)] == q[1 + x]);
        }
    }
    let one = grown(cur, i, v.subrange(k, j));
    assert(rest(s, i, cur) == rest(s, e + 1, one));
    if j == n {
        assert(requoted(v, n).len() == 0);
    } else {
        // The quote itself, escaped, and the rest.
        let r = requoted(v, j + 1);
        assert(requoted(v, j) == seq!['\'', '\\', '\'', '\''] + r);
        let m = j - k;
        assert(s[i + (m + 2)] == q[m + 2]);
        assert(s[i + (m + 3)] == q[m + 3]);
        assert(s[e + 1] == '\\' && s[e + 2] == '\'');
        lemma_rest(s, e + 1, one);
        let two = grown(one, e + 1, seq!['\'']);
        assert(piece_at(s, e + 1) == (Some(seq!['\'']), e + 3));
        let tail = seq!['\''] + r + seq!['\''];
        assert(s.subrange(e + 3, e + 3 + tail.len()) =~= tail) by {
            assert forall|x: int| 0 <= x < tail.len() implies s.subrange(
                e + 3,
                e + 3 + tail.len(),
            )[x] == tail[x] by {
                assert(s[i + (m + 4 + x)] == q[m + 4 + x]);
            }
        }
        lemma_single_quoted(s, v, j + 1, e + 3, two);
        let last = v.subrange(j + 1, n);
        lemma_grown(cur, i, v.subrange(k, j), e + 1, seq!['\'']);
        lemma_grown(cur, i, v.subrange(k, j) + seq!['\''], e + 3, last);
        assert(v.subrange(k, j) + seq!['\''] + last =~= v.subrange(k, n));
    }
}

/// A quoted value is read into the word as the value.
proof fn lemma_quoted(s: Seq<char>, v: Seq<char>, i: int, cur: Option<Word>)
    requires
        stands_at(s, quoted(v), i),
    ensures
        quoted(v).len() > 0,
        rest(s, i, cur) == rest(s, i + quoted(v).len(), grown(cur, i, v)),
{
    if plain_word(v) {
        lemma_plain(s, v, i, cur);
    } else {
        lemma_single_quoted(s, v, 0, i, cur);
        assert(v.subrange(0, v.len() as int) =~= v);
    }
}

proof fn lemma_quoted_is_one_word(v: Seq<char>)
    ensures
        char_tokens(quoted(v)) == seq![
            TokenV { text: v, is_separator: false, start: 0, end: quoted(v).len() as int },
        ],
{
    let q = quoted(v);
    assert(q.subrange(0, q.len() as int) =~= q);
    lemma_quoted(q, v, 0, None);
    lemma_rest(q, q.len() as int, grown(None, 0, v));
    assert(Seq::<char>::empty() + v =~= v);
}

/// A word that is the whole command ends with the command's last byte.
proof fn lemma_one_word(t: Seq<char>, text: Seq<char>)
    requires
        char_tokens(t) == seq![
            TokenV { text, is_separator: false, start: 0, end: t.len() as int },
        ],
    ensures
        tokens_of(t) == seq![
            TokenV { text, is_separator: false, start: 0, end: byte_len(t) as int },
        ],
{
    assert(t.take(0) =~= seq![]);
    assert(t.take(t.len() as int) =~= t);
    assert(tokens_of(t) =~= seq![
        TokenV { text, is_separator: false, start: 0, end: byte_len(t) as int },
    ]);
}

/// Whatever a value holds, quoted it is one word whose text is the value.
pub proof fn a_quoted_value_is_one_word(v: Seq<char>)
    ensures
        tokens_of(quoted(v)) == seq![
            TokenV { text: v, is_separator: false, start: 0, end: byte_len(quoted(v)) as int },
        ],
{
    lemma_quoted_is_one_word(v);
    lemma_one_word(quoted(v), v);
}

/// A word of safe characters is one token, and nothing is left open behind it.
pub proof fn a_plain_word_is_closed(w: Seq<char>)
    requires
        plain_word(w),
    ensures
        char_tokens(w) == seq![
            TokenV { text: w, is_separator: false, start: 0, end: w.len() as int },
        ],
        char_tokens(w.push(' ')) == char_tokens(w),
{
    lemma_quoted_is_one_word(w);
    let s = w.push(' ');
    let n = w.len() as int;
    assert(s.subrange(0, n) =~= w);
    lemma_plain(s, w, 0, None);
    lemma_rest(s, n, grown(None, 0, w));
    lemma_rest(s, n + 1, None);
    assert(Seq::<char>::empty() + w =~= w);
    assert(rest(s, n, grown(None, 0, w)) =~= char_tokens(w));
}

// ---------------------------------------------------------------------------
// What is read of a command depends on what was read
// ---------------------------------------------------------------------------

/// Whether two commands are the same up to `a`, where the first one goes on.
spec fn same_to(s: Seq<char>, t: Seq<char>, a: int) -> bool {
    &&& 0 <= a < s.len()
    &&& a <= t.len()
    &&& forall|x: int| 0 <= x < a ==> s[x] == t[x]
}

proof fn lemma_same_next_char(s: Seq<char>, t: Seq<char>, a: int, c: char, i: int)
    requires
        same_to(s, t, a),
        0 <= i,
        next_char(s, c, i) < a,
    ensures
        next_char(t, c, i) == next_char(s, c, i),
    decreases s.len() - i,
{
    if i < s.len() {
        lemma_next_char(s, c, i);
        if s[i] != c {
            lemma_same_next_char(s, t, a, c, i + 1);
        }
    }
}

proof fn lemma_same_quoted_end(s: Seq<char>, t: Seq<char>, a: int, i: int, q: char)
    requires
        same_to(s, t, a),
        0 <= i <= s.len(),
        quoted_end(s, i, q) <= a,
    ensures
        quoted_end(t, i, q) == quoted_end(s, i, q),
    decreases s.len() - i,
{
    lemma_quoted_end(s, i, q);
    if i < s.len() && s[i] != q {
        if q != '\'' && s[i] == '\\' && i + 1 < s.len() {
            lemma_quoted_end(s, i + 2, q);
            lemma_same_quoted_end(s, t, a, i + 2, q);
        } else {
            lemma_quoted_end(s, i + 1, q);
            lemma_same_quoted_end(s, t, a, i + 1, q);
        }
    }
}

proof fn lemma_same_after_blanks(s: Seq<char>, t: Seq<char>, a: int, i: int)
    requires
        same_to(s, t, a),
        0 <= i <= s.len(),
        after_blanks(s, i) < a,
    ensures
        after_blanks(t, i) == after_blanks(s, i),
    decreases s.len() - i,
{
    lemma_after_blanks(s, i);
    if holds(s, i, ' ') {
        lemma_same_after_blanks(s, t, a, i + 1);
    }
}

proof fn lemma_same_after_tag(s: Seq<char>, t: Seq<char>, a: int, i: int)
    requires
        same_to(s, t, a),
        0 <= i <= s.len(),
        after_tag(s, i) < a,
    ensures
        after_tag(t, i) == after_tag(s, i),
    decreases s.len() - i,
{
    lemma_after_tag(s, i);
    if i < s.len() && tag_char(s[i]) {
        lemma_same_after_tag(s, t, a, i + 1);
    }
}

proof fn lemma_same_heredoc_lines(s: Seq<char>, t: Seq<char>, a: int, i: int, tag: Seq<char>)
    requires
        same_to(s, t, a),
        0 <= i <= s.len(),
        heredoc_lines(s, i, tag) < a,
    ensures
        heredoc_lines(t, i, tag) == heredoc_lines(s, i, tag),
    decreases s.len() - i,
{
    lemma_heredoc_lines(s, i, tag);
    if i < s.len() {
        lemma_next_char(s, '\n', i + 1);
        let m = next_char(s, '\n', i + 1);
        lemma_heredoc_lines(s, m, tag);
        lemma_same_next_char(s, t, a, '\n', i + 1);
        assert(s.subrange(i + 1, m) =~= t.subrange(i + 1, m));
        if s.subrange(i + 1, m) != tag {
            lemma_same_heredoc_lines(s, t, a, m, tag);
        }
    }
}

proof fn lemma_same_heredoc_end(s: Seq<char>, t: Seq<char>, a: int, i: int)
    requires
        same_to(s, t, a),
        0 <= i,
        i + 2 <= s.len(),
        heredoc_end(s, i) < a,
    ensures
        heredoc_end(t, i) == heredoc_end(s, i),
{
    lemma_heredoc_end(s, i);
    let o = if holds(s, i + 2, '-') {
        i + 3
    } else {
        i + 2
    };
    lemma_after_blanks(s, o);
    let b = after_blanks(s, o);
    if holds(s, b, '\'') || holds(s, b, '"') {
        lemma_next_char(s, s[b], b + 1);
        let e = next_char(s, s[b], b + 1);
        let f = if e < s.len() {
            e + 1
        } else {
            e
        };
        lemma_next_char(s, '\n', f);
        let n = next_char(s, '\n', f);
        let tag = s.subrange(b + 1, e);
        lemma_heredoc_lines(s, n, tag);
        lemma_same_after_blanks(s, t, a, o);
        lemma_same_next_char(s, t, a, s[b], b + 1);
        lemma_same_next_char(s, t, a, '\n', f);
        assert(t.subrange(b + 1, e) =~= tag);
        lemma_same_heredoc_lines(s, t, a, n, tag);
    } else {
        lemma_after_tag(s, b);
        let e = after_tag(s, b);
        lemma_next_char(s, '\n', e);
        let n = next_char(s, '\n', e);
        let tag = s.subrange(b, e);
        lemma_heredoc_lines(s, n, tag);
        lemma_same_after_blanks(s, t, a, o);
        lemma_same_after_tag(s, t, a, b);
        lemma_same_next_char(s, t, a, '\n', e);
        assert(t.subrange(b, e) =~= tag);
        lemma_same_heredoc_lines(s, t, a, n, tag);
    }
}

proof fn lemma_same_substitution_end(s: Seq<char>, t: Seq<char>, a: int, i: int, depth: nat)
    requires
        same_to(s, t, a),
        0 <= i <= s.len(),
        substitution_end(s, i, depth) <= a,
    ensures
        substitution_end(t, i, depth) == substitution_end(s, i, depth),
    decreases s.len() - i,
{
    lemma_substitution_end(s, i, depth);
    if i < s.len() && depth > 0 {
        if s[i] == '(' {
            lemma_substitution_end(s, i + 1, depth + 1);
            lemma_same_substitution_end(s, t, a, i + 1, depth + 1);
        } else if s[i] == ')' {
            lemma_substitution_end(s, i + 1, (depth - 1) as nat);
            lemma_same_substitution_end(s, t, a, i + 1, (depth - 1) as nat);
        } else if s[i] == '\'' || s[i] == '"' {
            lemma_quoted_end(s, i + 1, s[i]);
            let j = quoted_end(s, i + 1, s[i]);
            lemma_substitution_end(s, j, depth);
            lemma_same_quoted_end(s, t, a, i + 1, s[i]);
            lemma_same_substitution_end(s, t, a, j, depth);
        } else if s[i] == '<' && holds(s, i + 1, '<') {
            lemma_heredoc_end(s, i);
            let j = heredoc_end(s, i);
            lemma_substitution_end(s, j, depth);
            lemma_same_heredoc_end(s, t, a, i);
            lemma_same_substitution_end(s, t, a, j, depth);
        } else {
            lemma_substitution_end(s, i + 1, depth);
            lemma_same_substitution_end(s, t, a, i + 1, depth);
        }
    }
}

proof fn lemma_same_double_quoted(s: Seq<char>, t: Seq<char>, a: int, i: int, acc: Seq<char>)
    requires
        same_to(s, t, a),
        0 <= i <= s.len(),
        double_quoted(s, i, acc).1 <= a,
    ensures
        double_quoted(t, i, acc) == double_quoted(s, i, acc),
        i < double_quoted(s, i, acc).1,
    decreases s.len() - i,
{
    lemma_double_quoted(s, i, acc);
    if i < s.len() && s[i] != '"' {
        if s[i] == '\\' && i + 1 < s.len() && escapable(s[i + 1]) {
            lemma_same_double_quoted(s, t, a, i + 2, acc.push(s[i + 1]));
        } else if s[i] == '\\' && i + 1 < s.len() {
            lemma_same_double_quoted(s, t, a, i + 2, acc.push('\\').push(s[i + 1]));
        } else if s[i] == '$' && holds(s, i + 1, '(') {
            lemma_substitution_end(s, i + 2, 1);
            let j = substitution_end(s, i + 2, 1);
            let more = acc + s.subrange(i, j);
            lemma_same_double_quoted(s, t, a, j, more);
            lemma_same_substitution_end(s, t, a, i + 2, 1);
            assert(t.subrange(i, j) =~= s.subrange(i, j));
        } else if s[i] == '`' {
            lemma_quoted_end(s, i + 1, '`');
            let j = quoted_end(s, i + 1, '`');
            lemma_same_double_quoted(s, t, a, j, acc + s.subrange(i, j));
            lemma_same_quoted_end(s, t, a, i + 1, '`');
            assert(t.subrange(i, j) =~= s.subrange(i, j));
        } else {
            lemma_same_double_quoted(s, t, a, i + 1, acc.push(s[i]));
        }
    }
}

/// A character that changes nothing of what stands in front of it.
spec fn inert(c: char) -> bool {
    c != '&' && c != '|' && c != '\n' && c != '('
}

/// A step that ends no later than the two commands part is the same in both.
proof fn lemma_same_step(s: Seq<char>, t: Seq<char>, a: int, i: int)
    requires
        same_to(s, t, a),
        a < t.len(),
        inert(t[a]),
        0 <= i < a,
        if ends_word(s[i]) {
            separator_at(s, i).1 <= a
        } else {
            piece_at(s, i).1 <= a
        },
    ensures
        s[i] == t[i],
        ends_word(s[i]) ==> separator_at(t, i) == separator_at(s, i),
        !ends_word(s[i]) ==> piece_at(t, i) == piece_at(s, i),
{
    let c = s[i];
    assert(t[i] == c);
    if !ends_word(c) {
        lemma_rest(s, i, None);
        let j = piece_at(s, i).1;
        if c == '\'' {
            lemma_next_char(s, '\'', i + 1);
            lemma_same_next_char(s, t, a, '\'', i + 1);
            let e = next_char(s, '\'', i + 1);
            assert(t.subrange(i + 1, e) =~= s.subrange(i + 1, e));
        } else if c == '"' {
            lemma_same_double_quoted(s, t, a, i + 1, seq![]);
        } else if c == '$' && holds(s, i + 1, '(') {
            lemma_substitution_end(s, i + 2, 1);
            lemma_same_substitution_end(s, t, a, i + 2, 1);
            assert(t.subrange(i, j) =~= s.subrange(i, j));
        } else if c == '`' {
            lemma_same_quoted_end(s, t, a, i + 1, '`');
            assert(t.subrange(i, j) =~= s.subrange(i, j));
        }
    }
}

// ---------------------------------------------------------------------------
// What is read of a command depends on what is left
// ---------------------------------------------------------------------------

/// Whether `s` from `i` on is what `t` holds `d` characters further on.
spec fn moved(s: Seq<char>, t: Seq<char>, i: int, d: int) -> bool {
    &&& 0 <= i <= s.len()
    &&& 0 <= i + d
    &&& t.len() == s.len() + d
    &&& forall|x: int| i <= x < s.len() ==> #[trigger] s[x] == t[x + d]
}

proof fn lemma_moved_part(s: Seq<char>, t: Seq<char>, i: int, d: int, from: int, to: int)
    requires
        moved(s, t, i, d),
        i <= from <= to <= s.len(),
    ensures
        t.subrange(from + d, to + d) == s.subrange(from, to),
{
    assert forall|x: int| 0 <= x < to - from implies t.subrange(from + d, to + d)[x]
        == s.subrange(from, to)[x] by {
        assert(s[from + x] == t[from + x + d]);
    }
    assert(t.subrange(from + d, to + d) =~= s.subrange(from, to));
}

proof fn lemma_moved_next_char(s: Seq<char>, t: Seq<char>, i: int, d: int, c: char)
    requires
        moved(s, t, i, d),
    ensures
        next_char(t, c, i + d) == next_char(s, c, i) + d,
    decreases s.len() - i,
{
    if i < s.len() {
        assert(s[i] == t[i + d]);
        if s[i] != c {
            lemma_moved_next_char(s, t, i + 1, d, c);
        }
    }
}

proof fn lemma_moved_quoted_end(s: Seq<char>, t: Seq<char>, i: int, d: int, q: char)
    requires
        moved(s, t, i, d),
    ensures
        quoted_end(t, i + d, q) == quoted_end(s, i, q) + d,
    decreases s.len() - i,
{
    if i < s.len() {
        assert(s[i] == t[i + d]);
        if s[i] != q {
            if q != '\'' && s[i] == '\\' && i + 1 < s.len() {
                lemma_moved_quoted_end(s, t, i + 2, d, q);
            } else {
                lemma_moved_quoted_end(s, t, i + 1, d, q);
            }
        }
    }
}

proof fn lemma_moved_after_blanks(s: Seq<char>, t: Seq<char>, i: int, d: int)
    requires
        moved(s, t, i, d),
    ensures
        after_blanks(t, i + d) == after_blanks(s, i) + d,
    decreases s.len() - i,
{
    if i < s.len() {
        assert(s[i] == t[i + d]);
        if s[i] == ' ' {
            lemma_moved_after_blanks(s, t, i + 1, d);
        }
    }
}

proof fn lemma_moved_after_tag(s: Seq<char>, t: Seq<char>, i: int, d: int)
    requires
        moved(s, t, i, d),
    ensures
        after_tag(t, i + d) == after_tag(s, i) + d,
    decreases s.len() - i,
{
    if i < s.len() {
        assert(s[i] == t[i + d]);
        if tag_char(s[i]) {
            lemma_moved_after_tag(s, t, i + 1, d);
        }
    }
}

proof fn lemma_moved_heredoc_lines(s: Seq<char>, t: Seq<char>, i: int, d: int, tag: Seq<char>)
    requires
        moved(s, t, i, d),
    ensures
        heredoc_lines(t, i + d, tag) == heredoc_lines(s, i, tag) + d,
    decreases s.len() - i,
{
    if i < s.len() {
        assert(moved(s, t, i + 1, d));
        lemma_next_char(s, '\n', i + 1);
        let m = next_char(s, '\n', i + 1);
        lemma_moved_next_char(s, t, i + 1, d, '\n');
        lemma_moved_part(s, t, i, d, i + 1, m);
        if s.subrange(i + 1, m) != tag {
            assert(moved(s, t, m, d));
            lemma_moved_heredoc_lines(s, t, m, d, tag);
        }
    }
}

proof fn lemma_moved_heredoc_end(s: Seq<char>, t: Seq<char>, i: int, d: int)
    requires
        moved(s, t, i, d),
        i + 2 <= s.len(),
    ensures
        heredoc_end(t, i + d) == heredoc_end(s, i) + d,
{
    if i + 2 < s.len() {
        assert(s[i + 2] == t[i + 2 + d]);
    }
    let o = if holds(s, i + 2, '-') {
        i + 3
    } else {
        i + 2
    };
    assert(moved(s, t, o, d));
    lemma_moved_after_blanks(s, t, o, d);
    lemma_after_blanks(s, o);
    let b = after_blanks(s, o);
    if b < s.len() {
        assert(s[b] == t[b + d]);
    }
    if holds(s, b, '\'') || holds(s, b, '"') {
        lemma_next_char(s, s[b], b + 1);
        let e = next_char(s, s[b], b + 1);
        let f = if e < s.len() {
            e + 1
        } else {
            e
        };
        assert(moved(s, t, b + 1, d));
        lemma_moved_next_char(s, t, b + 1, d, s[b]);
        assert(moved(s, t, f, d));
        lemma_moved_next_char(s, t, f, d, '\n');
        lemma_next_char(s, '\n', f);
        let n = next_char(s, '\n', f);
        assert(moved(s, t, n, d));
        lemma_moved_part(s, t, i, d, b + 1, e);
        lemma_moved_heredoc_lines(s, t, n, d, s.subrange(b + 1, e));
    } else {
        lemma_after_tag(s, b);
        let e = after_tag(s, b);
        assert(moved(s, t, b, d));
        lemma_moved_after_tag(s, t, b, d);
        assert(moved(s, t, e, d));
        lemma_moved_next_char(s, t, e, d, '\n');
        lemma_next_char(s, '\n', e);
        let n = next_char(s, '\n', e);
        assert(moved(s, t, n, d));
        lemma_moved_part(s, t, i, d, b, e);
        lemma_moved_heredoc_lines(s, t, n, d, s.subrange(b, e));
    }
}

proof fn lemma_moved_substitution_end(s: Seq<char>, t: Seq<char>, i: int, d: int, depth: nat)
    requires
        moved(s, t, i, d),
    ensures
        substitution_end(t, i + d, depth) == substitution_end(s, i, depth) + d,
    decreases s.len() - i,
{
    if i < s.len() && depth > 0 {
        assert(s[i] == t[i + d]);
        assert(moved(s, t, i + 1, d));
        if i + 1 < s.len() {
            assert(s[i + 1] == t[i + 1 + d]);
        }
        if s[i] == '(' {
            lemma_moved_substitution_end(s, t, i + 1, d, depth + 1);
        } else if s[i] == ')' {
            lemma_moved_substitution_end(s, t, i + 1, d, (depth - 1) as nat);
        } else if s[i] == '\'' || s[i] == '"' {
            lemma_quoted_end(s, i + 1, s[i]);
            let j = quoted_end(s, i + 1, s[i]);
            lemma_moved_quoted_end(s, t, i + 1, d, s[i]);
            assert(moved(s, t, j, d));
            lemma_moved_substitution_end(s, t, j, d, depth);
        } else if s[i] == '<' && holds(s, i + 1, '<') {
            lemma_heredoc_end(s, i);
            let j = heredoc_end(s, i);
            lemma_moved_heredoc_end(s, t, i, d);
            assert(moved(s, t, j, d));
            lemma_moved_substitution_end(s, t, j, d, depth);
        } else {
            lemma_moved_substitution_end(s, t, i + 1, d, depth);
        }
    }
}

proof fn lemma_moved_double_quoted(s: Seq<char>, t: Seq<char>, i: int, d: int, acc: Seq<char>)
    requires
        moved(s, t, i, d),
    ensures
        double_quoted(t, i + d, acc).0 == double_quoted(s, i, acc).0,
        double_quoted(t, i + d, acc).1 == double_quoted(s, i, acc).1 + d,
    decreases s.len() - i,
{
    if i < s.len() {
        assert(s[i] == t[i + d]);
        if i + 1 < s.len() {
            assert(s[i + 1] == t[i + 1 + d]);
        }
        if s[i] != '"' {
            if s[i] == '\\' && i + 1 < s.len() && escapable(s[i + 1]) {
                lemma_moved_double_quoted(s, t, i + 2, d, acc.push(s[i + 1]));
            } else if s[i] == '\\' && i + 1 < s.len() {
                lemma_moved_double_quoted(s, t, i + 2, d, acc.push('\\').push(s[i + 1]));
            } else if s[i] == '$' && holds(s, i + 1, '(') {
                lemma_substitution_end(s, i + 2, 1);
                let j = substitution_end(s, i + 2, 1);
                assert(moved(s, t, i + 2, d));
                lemma_moved_substitution_end(s, t, i + 2, d, 1);
                lemma_moved_part(s, t, i, d, i, j);
                assert(moved(s, t, j, d));
                lemma_moved_double_quoted(s, t, j, d, acc + s.subrange(i, j));
            } else if s[i] == '`' {
                lemma_quoted_end(s, i + 1, '`');
                let j = quoted_end(s, i + 1, '`');
                assert(moved(s, t, i + 1, d));
                lemma_moved_quoted_end(s, t, i + 1, d, '`');
                lemma_moved_part(s, t, i, d, i, j);
                assert(moved(s, t, j, d));
                lemma_moved_double_quoted(s, t, j, d, acc + s.subrange(i, j));
            } else {
                lemma_moved_double_quoted(s, t, i + 1, d, acc.push(s[i]));
            }
        }
    }
}

/// A token `d` further on.
pub open spec fn later(k: TokenV, d: int) -> TokenV {
    TokenV { text: k.text, is_separator: k.is_separator, start: k.start + d, end: k.end + d }
}

/// Tokens `d` further on.
pub open spec fn all_later(ks: Seq<TokenV>, d: int) -> Seq<TokenV> {
    ks.map_values(|k: TokenV| later(k, d))
}

/// The word being read, `d` characters further on.
spec fn word_later(cur: Option<Word>, d: int) -> Option<Word> {
    match cur {
        Some(w) => Some(Word { text: w.text, start: w.start + d }),
        None => None,
    }
}

proof fn lemma_moved_separator(s: Seq<char>, t: Seq<char>, i: int, d: int)
    requires
        moved(s, t, i, d),
        i < s.len(),
        ends_word(s[i]),
    ensures
        t[i + d] == s[i],
        separator_at(t, i + d).0 == all_later(separator_at(s, i).0, d),
        separator_at(t, i + d).1 == separator_at(s, i).1 + d,
{
    assert(s[i] == t[i + d]);
    if i + 1 < s.len() {
        assert(s[i + 1] == t[i + 1 + d]);
    }
    assert(separator_at(t, i + d).0 =~= all_later(separator_at(s, i).0, d));
}

proof fn lemma_moved_piece(s: Seq<char>, t: Seq<char>, i: int, d: int)
    requires
        moved(s, t, i, d),
        i < s.len(),
        !ends_word(s[i]),
    ensures
        t[i + d] == s[i],
        piece_at(t, i + d).0 == piece_at(s, i).0,
        piece_at(t, i + d).1 == piece_at(s, i).1 + d,
{
    assert(s[i] == t[i + d]);
    if i + 1 < s.len() {
        assert(s[i + 1] == t[i + 1 + d]);
    }
    if i + 2 < s.len() {
        assert(s[i + 2] == t[i + 2 + d]);
    }
    assert(moved(s, t, i + 1, d));
    if s[i] == '\'' {
        lemma_next_char(s, '\'', i + 1);
        lemma_moved_next_char(s, t, i + 1, d, '\'');
        let j = next_char(s, '\'', i + 1);
        lemma_moved_part(s, t, i, d, i + 1, j);
    } else if s[i] == '"' {
        lemma_moved_double_quoted(s, t, i + 1, d, seq![]);
    } else if s[i] == '$' && holds(s, i + 1, '(') {
        lemma_substitution_end(s, i + 2, 1);
        let j = substitution_end(s, i + 2, 1);
        assert(moved(s, t, i + 2, d));
        lemma_moved_substitution_end(s, t, i + 2, d, 1);
        lemma_moved_part(s, t, i, d, i, j);
    } else if s[i] == '`' {
        lemma_quoted_end(s, i + 1, '`');
        let j = quoted_end(s, i + 1, '`');
        lemma_moved_quoted_end(s, t, i + 1, d, '`');
        lemma_moved_part(s, t, i, d, i, j);
    }
}

/// What is left gives the same tokens wherever it stands.
proof fn lemma_moved_rest(s: Seq<char>, t: Seq<char>, i: int, d: int, cur: Option<Word>)
    requires
        moved(s, t, i, d),
    ensures
        rest(t, i + d, word_later(cur, d)) == all_later(rest(s, i, cur), d),
    decreases s.len() - i,
{
    lemma_rest(s, i, cur);
    lemma_rest(t, i + d, word_later(cur, d));
    if i >= s.len() {
        assert(ended(word_later(cur, d), i + d) =~= all_later(ended(cur, i), d));
    } else if ends_word(s[i]) {
        lemma_moved_separator(s, t, i, d);
        let (seps, j) = separator_at(s, i);
        assert(moved(s, t, j, d));
        lemma_moved_rest(s, t, j, d, None);
        assert(ended(word_later(cur, d), i + d) =~= all_later(ended(cur, i), d));
        assert(all_later(ended(cur, i) + seps + rest(s, j, None), d) =~= all_later(
            ended(cur, i),
            d,
        ) + all_later(seps, d) + all_later(rest(s, j, None), d));
    } else {
        lemma_moved_piece(s, t, i, d);
        let (piece, j) = piece_at(s, i);
        assert(moved(s, t, j, d));
        lemma_moved_rest(s, t, j, d, word_on(cur, i, piece));
    }
}

// ---------------------------------------------------------------------------
// Values put into a command
// ---------------------------------------------------------------------------

/// Behind the end of a word its text does not matter.
proof fn lemma_after_word(s: Seq<char>, t: Seq<char>, b: int, d: int, w: Word, x: Word)
    requires
        moved(s, t, b, d),
        b < s.len() ==> ends_word(s[b]),
    ensures
        rest(s, b, Some(w)).len() > 0,
        rest(s, b, Some(w))[0] == word_token(w, b),
        rest(t, b + d, Some(x)) == seq![word_token(x, b + d)] + all_later(
            rest(s, b, Some(w)).skip(1),
            d,
        ),
{
    lemma_rest(s, b, Some(w));
    lemma_rest(t, b + d, Some(x));
    let r = rest(s, b, Some(w));
    if b >= s.len() {
        assert(r.skip(1) =~= seq![]);
        assert(seq![word_token(x, b + d)] + all_later(r.skip(1), d) =~= seq![
            word_token(x, b + d),
        ]);
    } else {
        lemma_moved_separator(s, t, b, d);
        let (seps, j) = separator_at(s, b);
        assert(moved(s, t, j, d));
        lemma_moved_rest(s, t, j, d, None);
        assert(r.skip(1) =~= seps + rest(s, j, None));
        assert(all_later(seps + rest(s, j, None), d) =~= all_later(seps, d) + all_later(
            rest(s, j, None),
            d,
        ));
        assert(ended(Some(x), b + d) =~= seq![word_token(x, b + d)]);
        assert(rest(t, b + d, Some(x)) =~= seq![word_token(x, b + d)] + all_later(r.skip(1), d));
    }
}

/// A command in backticks.
pub open spec fn in_backticks(command: Seq<char>) -> Seq<char> {
    seq!['`'] + command + seq!['`']
}

/// A command in `$(…)`.
pub open spec fn in_parentheses(command: Seq<char>) -> Seq<char> {
    seq!['$', '('] + command + seq![')']
}

/// Whether the backtick behind a command is the one that ends it: every other one in it is
/// escaped.
pub open spec fn ends_at_a_backtick(command: Seq<char>) -> bool {
    quoted_end(command.push('`'), 0, '`') == command.len() + 1
}

/// Whether the parenthesis behind a command is the one that ends it: every other one in it is
/// paired or quoted, and nothing is left open.
pub open spec fn ends_at_a_parenthesis(command: Seq<char>) -> bool {
    substitution_end(command.push(')'), 0, 1) == command.len() + 1
}

/// A command in backticks or `$(…)` is one word, kept as it stands.
pub proof fn a_substitution_is_one_word(command: Seq<char>)
    ensures
        ends_at_a_backtick(command) ==> ({
            let t = in_backticks(command);
            tokens_of(t) == seq![
                TokenV { text: t, is_separator: false, start: 0, end: byte_len(t) as int },
            ]
        }),
        ends_at_a_parenthesis(command) ==> ({
            let t = in_parentheses(command);
            tokens_of(t) == seq![
                TokenV { text: t, is_separator: false, start: 0, end: byte_len(t) as int },
            ]
        }),
{
    let n = command.len() as int;
    if ends_at_a_backtick(command) {
        let s = command.push('`');
        let t = in_backticks(command);
        assert(moved(s, t, 0, 1));
        lemma_moved_quoted_end(s, t, 0, 1, '`');
        lemma_rest(t, 0, None);
        assert(t.subrange(0, n + 2) =~= t);
        assert(Seq::<char>::empty() + t =~= t);
        lemma_rest(t, n + 2, Some(Word { text: t, start: 0 }));
        lemma_one_word(t, t);
    }
    if ends_at_a_parenthesis(command) {
        let s = command.push(')');
        let t = in_parentheses(command);
        assert(moved(s, t, 0, 2));
        lemma_moved_substitution_end(s, t, 0, 2, 1);
        lemma_rest(t, 0, None);
        assert(t.subrange(0, n + 3) =~= t);
        assert(Seq::<char>::empty() + t =~= t);
        lemma_rest(t, n + 3, Some(Word { text: t, start: 0 }));
        lemma_one_word(t, t);
    }
}

/// `s` with the characters `a..b` replaced.
pub open spec fn put(s: Seq<char>, a: int, b: int, new: Seq<char>) -> Seq<char> {
    s.subrange(0, a) + new + s.subrange(b, s.len() as int)
}

/// A word written as safe characters and a quoted value.
pub open spec fn written(p: Seq<char>, v: Seq<char>) -> Seq<char> {
    p + quoted(v)
}

pub open spec fn safe_text(p: Seq<char>) -> bool {
    forall|k: int| 0 <= k < p.len() ==> shell_safe(#[trigger] p[k])
}

/// What is written is read into the word as its text.
proof fn lemma_written(s: Seq<char>, p: Seq<char>, v: Seq<char>, i: int, cur: Option<Word>)
    requires
        safe_text(p),
        stands_at(s, written(p, v), i),
    ensures
        written(p, v).len() > 0,
        inert(s[i]),
        !ends_word(s[i]),
        rest(s, i, cur) == rest(s, i + written(p, v).len(), grown(cur, i, p + v)),
{
    let q = quoted(v);
    let w = p + q;
    assert(s.subrange(i, i + w.len()) =~= w);
    assert forall|x: int| 0 <= x < w.len() implies s[i + x] == w[x] by {
        assert(s.subrange(i, i + w.len())[x] == s[i + x]);
    }
    let m = i + p.len();
    assert(s.subrange(m, m + q.len()) =~= q) by {
        assert forall|x: int| 0 <= x < q.len() implies s.subrange(m, m + q.len())[x] == q[x] by {
            assert(s[i + (p.len() + x)] == w[p.len() + x]);
        }
    }
    if p.len() == 0 {
        lemma_quoted(s, v, i, cur);
        assert(p + v =~= v);
        assert(s[i + 0] == q[0]);
        if plain_word(v) {
            assert(shell_safe(v[0]));
        }
    } else {
        assert(s.subrange(i, i + p.len()) =~= p) by {
            assert forall|x: int| 0 <= x < p.len() implies s.subrange(i, i + p.len())[x]
                == p[x] by {
                assert(s[i + x] == w[x]);
            }
        }
        lemma_plain(s, p, i, cur);
        lemma_quoted(s, v, m, grown(cur, i, p));
        lemma_grown(cur, i, p, m, v);
        assert(s[i + 0] == w[0]);
        assert(shell_safe(p[0]));
    }
}

/// The tokens with the `k`th replaced by a word and the later ones moved.
pub open spec fn replaced(ts: Seq<TokenV>, k: int, text: Seq<char>, len: int) -> Seq<TokenV> {
    let a = ts[k].start;
    ts.take(k).push(TokenV { text, is_separator: false, start: a, end: a + len }) + all_later(
        ts.skip(k + 1),
        len - (ts[k].end - a),
    )
}

/// The word that is replaced begins here.
proof fn lemma_replaced_here(s: Seq<char>, i: int, p: Seq<char>, v: Seq<char>, k: int)
    requires
        0 <= i <= s.len(),
        safe_text(p),
        0 <= k < rest(s, i, None).len(),
        !rest(s, i, None)[k].is_separator,
        i == rest(s, i, None)[k].start,
    ensures
        ({
            let r = rest(s, i, None);
            rest(put(s, r[k].start, r[k].end, written(p, v)), i, None) == replaced(
                r,
                k,
                p + v,
                written(p, v).len() as int,
            )
        }),
{
    let r = rest(s, i, None);
    let b = r[k].end;
    let new = written(p, v);
    let t = put(s, i, b, new);
    let d = new.len() - (b - i);
    lemma_spans(s, i, None);
    lemma_rest(s, i, None);
    if ends_word(s[i]) {
        let (seps, j) = separator_at(s, i);
        lemma_spans(s, j, None);
        let o = ended(None, i) + seps;
        assert(r == o + rest(s, j, None));
        if k < o.len() {
            assert(r[k] == seps[k]);
        } else {
            assert(r[k] == rest(s, j, None)[k - o.len()]);
        }
        assert(false);
    }
    let (piece, j) = piece_at(s, i);
    let on = word_on(None, i, piece);
    lemma_spans(s, j, on);
    assert(on is Some);
    assert(k == 0);
    lemma_word_end(s, j, on->0);
    let old = Word { text: r[0].text, start: i };
    let x = Word { text: p + v, start: i };
    assert(r == rest(s, b, Some(old)));
    assert(t.subrange(i, i + new.len()) =~= new);
    lemma_written(t, p, v, i, None);
    assert(grown(None, i, p + v) == Some(x)) by {
        assert(Seq::<char>::empty() + (p + v) =~= p + v);
    }
    assert(moved(s, t, b, d));
    lemma_after_word(s, t, b, d, old, x);
    assert(r.take(0).push(word_token(x, i + new.len())) =~= seq![word_token(x, i + new.len())]);
}

/// A step in front of a word that begins at `a` ends no later than there.
proof fn lemma_step_before(s: Seq<char>, i: int, cur: Option<Word>, k: int)
    requires
        0 <= i < s.len(),
        begun(cur, i),
        0 <= k < rest(s, i, cur).len(),
        !rest(s, i, cur)[k].is_separator,
        i < rest(s, i, cur)[k].start,
    ensures
        ({
            let r = rest(s, i, cur);
            if ends_word(s[i]) {
                let (seps, j) = separator_at(s, i);
                let o = ended(cur, i) + seps;
                &&& j <= r[k].start
                &&& o.len() <= k
                &&& r == o + rest(s, j, None)
                &&& r[k] == rest(s, j, None)[k - o.len()]
            } else {
                let (piece, j) = piece_at(s, i);
                &&& j <= r[k].start
                &&& begun(word_on(cur, i, piece), j)
                &&& r == rest(s, j, word_on(cur, i, piece))
            }
        }),
{
    let r = rest(s, i, cur);
    lemma_rest(s, i, cur);
    if ends_word(s[i]) {
        let (seps, j) = separator_at(s, i);
        let o = ended(cur, i) + seps;
        lemma_spans(s, j, None);
        if k < o.len() {
            assert(r[k] == o[k]);
            if cur is Some && k == 0 {
            } else {
                assert(o[k] == seps[k - ended(cur, i).len()]);
            }
            assert(false);
        }
        assert(r[k] == rest(s, j, None)[k - o.len()]);
    } else {
        let (piece, j) = piece_at(s, i);
        lemma_spans(s, j, word_on(cur, i, piece));
    }
}

proof fn lemma_replaced(
    s: Seq<char>,
    i: int,
    cur: Option<Word>,
    k: int,
    p: Seq<char>,
    v: Seq<char>,
)
    requires
        0 <= i <= s.len(),
        begun(cur, i),
        safe_text(p),
        0 <= k < rest(s, i, cur).len(),
        !rest(s, i, cur)[k].is_separator,
        i <= rest(s, i, cur)[k].start,
    ensures
        ({
            let r = rest(s, i, cur);
            rest(put(s, r[k].start, r[k].end, written(p, v)), i, cur) == replaced(
                r,
                k,
                p + v,
                written(p, v).len() as int,
            )
        }),
    decreases s.len() - i,
{
    let r = rest(s, i, cur);
    let a = r[k].start;
    let b = r[k].end;
    let new = written(p, v);
    let t = put(s, a, b, new);
    assert(i <= a < b <= s.len() && (i == a ==> cur is None)) by {
        lemma_spans(s, i, cur);
    }
    if i == a {
        lemma_replaced_here(s, i, p, v, k);
    } else {
        assert(same_to(s, t, a));
        assert(a < t.len() && inert(t[a])) by {
            assert(t.subrange(a, a + new.len()) =~= new);
            lemma_written(t, p, v, a, None);
        }
        lemma_step_before(s, i, cur, k);
        lemma_same_step(s, t, a, i);
        lemma_rest(s, i, cur);
        lemma_rest(t, i, cur);
        if ends_word(s[i]) {
            let (seps, j) = separator_at(s, i);
            let o = ended(cur, i) + seps;
            let n = rest(s, j, None);
            let q = k - o.len();
            lemma_replaced(s, j, None, q, p, v);
            assert(r.skip(k + 1) =~= n.skip(q + 1));
            assert(r.take(k) =~= o + n.take(q));
            assert(rest(t, i, cur) =~= replaced(r, k, p + v, new.len() as int));
        } else {
            let (piece, j) = piece_at(s, i);
            lemma_replaced(s, j, word_on(cur, i, piece), k, p, v);
        }
    }
}

/// A value, quoted, in the place of a word: the command then has the same tokens, with the
/// value, behind the safe characters `p`, for that word's text.
pub proof fn a_value_in_place_disturbs_no_other_token(
    s: Seq<char>,
    k: int,
    p: Seq<char>,
    v: Seq<char>,
)
    requires
        0 <= k < char_tokens(s).len(),
        !char_tokens(s)[k].is_separator,
        safe_text(p),
    ensures
        ({
            let ts = char_tokens(s);
            char_tokens(put(s, ts[k].start, ts[k].end, written(p, v))) == replaced(
                ts,
                k,
                p + v,
                written(p, v).len() as int,
            )
        }),
{
    lemma_spans(s, 0, None);
    lemma_replaced(s, 0, None, k, p, v);
}

/// From the end of a word on, its text and where it began are all that counts.
proof fn lemma_at_word(s: Seq<char>, i: int, cur: Option<Word>, k: int)
    requires
        0 <= i <= s.len(),
        begun(cur, i),
        0 <= k < rest(s, i, cur).len(),
        !rest(s, i, cur)[k].is_separator,
    ensures
        ({
            let r = rest(s, i, cur);
            let w = Word { text: r[k].text, start: r[k].start };
            &&& 0 <= r[k].end <= s.len()
            &&& r[k].end < s.len() ==> ends_word(s[r[k].end])
            &&& r.skip(k) == rest(s, r[k].end, Some(w))
        }),
    decreases s.len() - i,
{
    let r = rest(s, i, cur);
    if cur is Some && k == 0 {
        lemma_word_end(s, i, cur->0);
        assert(r.skip(0) =~= r);
    } else {
        lemma_rest(s, i, cur);
        if i < s.len() && ends_word(s[i]) {
            let (seps, j) = separator_at(s, i);
            let o = ended(cur, i) + seps;
            let n = rest(s, j, None);
            if k < o.len() {
                assert(r[k] == seps[k - ended(cur, i).len()]);
                assert(false);
            }
            assert(r[k] == n[k - o.len()]);
            lemma_at_word(s, j, None, k - o.len());
            assert(r.skip(k) =~= n.skip(k - o.len()));
        } else if i < s.len() {
            let (piece, j) = piece_at(s, i);
            lemma_at_word(s, j, word_on(cur, i, piece), k);
        }
    }
}

/// A step inside or in front of a word ends no later than the word does.
proof fn lemma_step_within(s: Seq<char>, i: int, cur: Option<Word>, k: int)
    requires
        0 <= i < s.len(),
        begun(cur, i),
        0 <= k < rest(s, i, cur).len(),
        !rest(s, i, cur)[k].is_separator,
        i < rest(s, i, cur)[k].end,
    ensures
        ({
            let r = rest(s, i, cur);
            if ends_word(s[i]) {
                let (seps, j) = separator_at(s, i);
                let o = ended(cur, i) + seps;
                &&& j <= r[k].end
                &&& o.len() <= k
                &&& r == o + rest(s, j, None)
                &&& r[k] == rest(s, j, None)[k - o.len()]
            } else {
                let (piece, j) = piece_at(s, i);
                &&& j <= r[k].end
                &&& begun(word_on(cur, i, piece), j)
                &&& r == rest(s, j, word_on(cur, i, piece))
            }
        }),
{
    let r = rest(s, i, cur);
    lemma_rest(s, i, cur);
    if ends_word(s[i]) {
        let (seps, j) = separator_at(s, i);
        let o = ended(cur, i) + seps;
        lemma_spans(s, j, None);
        if k < o.len() {
            assert(r[k] == o[k]);
            if cur is Some && k == 0 {
            } else {
                assert(o[k] == seps[k - ended(cur, i).len()]);
            }
            assert(false);
        }
        assert(r[k] == rest(s, j, None)[k - o.len()]);
    } else {
        let (piece, j) = piece_at(s, i);
        lemma_spans(s, j, word_on(cur, i, piece));
    }
}

/// A blank where a word ends leaves the tokens up to there as they are.
proof fn lemma_cut(s: Seq<char>, t: Seq<char>, e: int, i: int, cur: Option<Word>, k: int)
    requires
        0 <= i <= s.len(),
        begun(cur, i),
        0 <= k < rest(s, i, cur).len(),
        !rest(s, i, cur)[k].is_separator,
        rest(s, i, cur)[k].end == e,
        i <= e,
        same_to(s, t, e),
        e < t.len(),
        t[e] == ' ',
    ensures
        rest(t, i, cur) == rest(s, i, cur).take(k + 1) + rest(t, e + 1, None),
    decreases s.len() - i,
{
    let r = rest(s, i, cur);
    if i == e {
        assert(cur is Some && k == 0) by {
            lemma_spans(s, i, cur);
        }
        lemma_at_word(s, i, cur, 0);
        lemma_rest(s, i, cur);
        lemma_rest(t, i, cur);
        assert(r.take(1) =~= ended(cur, i));
        assert(ended(cur, i) + seq![] + rest(t, e + 1, None) =~= ended(cur, i) + rest(
            t,
            e + 1,
            None,
        ));
    } else {
        lemma_step_within(s, i, cur, k);
        lemma_same_step(s, t, e, i);
        lemma_rest(s, i, cur);
        lemma_rest(t, i, cur);
        if ends_word(s[i]) {
            let (seps, j) = separator_at(s, i);
            let o = ended(cur, i) + seps;
            let n = rest(s, j, None);
            let q = k - o.len();
            lemma_cut(s, t, e, j, None, q);
            assert(r.take(k + 1) =~= o + n.take(q + 1));
            assert(rest(t, i, cur) =~= r.take(k + 1) + rest(t, e + 1, None));
        } else {
            let (piece, j) = piece_at(s, i);
            lemma_cut(s, t, e, j, word_on(cur, i, piece), k);
        }
    }
}

/// Whether no quote, substitution or escape is open at the end of a command: a blank behind
/// it adds to none of its words.
pub open spec fn closed(s: Seq<char>) -> bool {
    char_tokens(s.push(' ')) == char_tokens(s)
}

/// A flag and its quoted value, as they are written behind a word.
pub open spec fn flag_text(flag: Seq<char>, v: Seq<char>) -> Seq<char> {
    seq![' '] + flag + seq![' '] + quoted(v)
}

/// The tokens with a flag and its value behind the `k`th, and the later ones moved.
pub open spec fn with_flag(ts: Seq<TokenV>, k: int, flag: Seq<char>, v: Seq<char>) -> Seq<
    TokenV,
> {
    let e = ts[k].end;
    let n = flag_text(flag, v).len();
    ts.take(k + 1) + seq![
        TokenV { text: flag, is_separator: false, start: e + 1, end: e + 1 + flag.len() },
        TokenV { text: v, is_separator: false, start: e + 2 + flag.len(), end: e + n },
    ] + all_later(ts.skip(k + 1), n as int)
}

/// What stands behind the blank: the flag, its value, and the rest of the command.
proof fn lemma_flag_tail(
    s: Seq<char>,
    t: Seq<char>,
    e: int,
    flag: Seq<char>,
    v: Seq<char>,
    old: Word,
)
    requires
        0 <= e <= s.len(),
        e < s.len() ==> ends_word(s[e]),
        t == put(s, e, e, flag_text(flag, v)),
        safe_text(flag),
        flag.len() > 0,
    ensures
        rest(t, e + 1, None) == seq![
            TokenV { text: flag, is_separator: false, start: e + 1, end: e + 1 + flag.len() },
            TokenV {
                text: v,
                is_separator: false,
                start: e + 2 + flag.len(),
                end: e + flag_text(flag, v).len(),
            },
        ] + all_later(rest(s, e, Some(old)).skip(1), flag_text(flag, v).len() as int),
{
    let ins = flag_text(flag, v);
    let n = ins.len() as int;
    let m = e + 1 + flag.len();
    let q = quoted(v);
    assert(t.subrange(e + 1, e + 1 + flag.len()) =~= flag);
    assert(t[m] == ' ');
    assert(t.subrange(m + 1, m + 1 + q.len()) =~= q);
    lemma_plain(t, flag, e + 1, None);
    let f = Word { text: flag, start: e + 1 };
    assert(grown(None, e + 1, flag) == Some(f)) by {
        assert(Seq::<char>::empty() + flag =~= flag);
    }
    lemma_rest(t, m, Some(f));
    lemma_quoted(t, v, m + 1, None);
    let x = Word { text: v, start: m + 1 };
    assert(grown(None, m + 1, v) == Some(x)) by {
        assert(Seq::<char>::empty() + v =~= v);
    }
    assert(moved(s, t, e, n));
    lemma_after_word(s, t, e, n, old, x);
    let tail = all_later(rest(s, e, Some(old)).skip(1), n);
    assert(rest(t, m + 1, None) == seq![word_token(x, e + n)] + tail);
    assert(rest(t, e + 1, None) =~= seq![word_token(f, m), word_token(x, e + n)] + tail);
}

/// A flag and its quoted value behind a word: the command then has two more tokens there,
/// and otherwise the same. At the end of the command nothing may be left open.
pub proof fn a_flag_behind_a_word_disturbs_no_token(
    s: Seq<char>,
    k: int,
    flag: Seq<char>,
    v: Seq<char>,
)
    requires
        0 <= k < char_tokens(s).len(),
        !char_tokens(s)[k].is_separator,
        safe_text(flag),
        flag.len() > 0,
        char_tokens(s)[k].end < s.len() || closed(s),
    ensures
        ({
            let ts = char_tokens(s);
            char_tokens(put(s, ts[k].end, ts[k].end, flag_text(flag, v))) == with_flag(
                ts,
                k,
                flag,
                v,
            )
        }),
{
    let ts = char_tokens(s);
    let e = ts[k].end;
    let ins = flag_text(flag, v);
    let t = put(s, e, e, ins);
    lemma_spans(s, 0, None);
    lemma_at_word(s, 0, None, k);
    assert(t[e] == ' ');
    if e < s.len() {
        lemma_cut(s, t, e, 0, None, k);
    } else {
        lemma_cut(s.push(' '), t, e, 0, None, k);
    }
    let old = Word { text: ts[k].text, start: ts[k].start };
    lemma_flag_tail(s, t, e, flag, v, old);
    assert(rest(s, e, Some(old)).skip(1) =~= ts.skip(k + 1));
    assert(char_tokens(t) =~= with_flag(ts, k, flag, v));
}

/// What stands between two commands: an operator, the end of a line or a parenthesis.
pub open spec fn is_operator(o: Seq<char>) -> bool {
    ||| o == seq!['&', '&']
    ||| o == seq!['|', '|']
    ||| o == seq!['|']
    ||| o == seq![';']
    ||| o == seq!['&']
    ||| o == seq!['\n']
    ||| o == seq!['(']
    ||| o == seq![')']
}

/// An operator as a token: the end of a line is a semicolon.
pub open spec fn operator_text(o: Seq<char>) -> Seq<char> {
    if o == seq!['\n'] {
        seq![';']
    } else {
        o
    }
}

/// Two commands with an operator between them.
pub open spec fn in_a_row(a: Seq<char>, o: Seq<char>, b: Seq<char>) -> Seq<char> {
    a + seq![' '] + o + seq![' '] + b
}

/// Whether a command ends with a word in which nothing is left open.
pub open spec fn ends_in_a_word(a: Seq<char>) -> bool {
    let ts = char_tokens(a);
    ts.len() > 0 && !ts.last().is_separator && ts.last().end == a.len() && closed(a)
}

/// Two commands in a row, by characters.
proof fn lemma_chars_in_a_row(a: Seq<char>, o: Seq<char>, b: Seq<char>)
    requires
        ends_in_a_word(a),
        is_operator(o),
    ensures
        char_tokens(in_a_row(a, o, b)) == char_tokens(a) + seq![
            separator(operator_text(o), a.len() as int + 1, a.len() as int + 1 + o.len()),
        ] + all_later(char_tokens(b), a.len() as int + o.len() + 2),
{
    let t = in_a_row(a, o, b);
    let ts = char_tokens(a);
    let k = ts.len() - 1;
    let e = a.len() as int;
    let s = a.push(' ');
    assert(t[e] == ' ');
    assert forall|x: int| 0 <= x < e implies s[x] == t[x] by {
        assert(t[x] == a[x]);
    }
    lemma_cut(s, t, e, 0, None, k);
    assert(ts.take(k + 1) =~= ts);
    assert(t.subrange(e + 1, e + 1 + o.len()) =~= o);
    assert(t[e + 1] == o[0]) by {
        assert(t.subrange(e + 1, e + 1 + o.len())[0] == o[0]);
    }
    let m = e + 1 + o.len();
    assert(t[m] == ' ');
    if o.len() == 2 {
        assert(t[e + 2] == t.subrange(e + 1, e + 1 + o.len())[1]);
    }
    lemma_rest(t, e + 1, None);
    assert(separator_at(t, e + 1) == (seq![separator(operator_text(o), e + 1, m)], m));
    lemma_rest(t, m, None);
    let d = m + 1;
    assert(moved(b, t, 0, d));
    lemma_moved_rest(b, t, 0, d, None);
    let tail = all_later(char_tokens(b), d);
    assert(rest(t, m, None) =~= tail);
    assert(rest(t, e + 1, None) =~= seq![separator(operator_text(o), e + 1, m)] + tail);
    assert(char_tokens(t) =~= ts + seq![separator(operator_text(o), e + 1, m)] + tail);
}

/// Two commands in a row have the tokens of the first, the operator, and the tokens of the
/// second, moved.
pub proof fn commands_in_a_row_keep_their_tokens(a: Seq<char>, o: Seq<char>, b: Seq<char>)
    requires
        ends_in_a_word(a),
        is_operator(o),
    ensures
        tokens_of(in_a_row(a, o, b)) == tokens_of(a) + seq![
            separator(operator_text(o), byte_len(a) as int + 1, byte_len(a) as int + 1 + byte_len(o)),
        ] + all_later(tokens_of(b), byte_len(a) as int + byte_len(o) + 2),
{
    lemma_chars_in_a_row(a, o, b);
    let t = in_a_row(a, o, b);
    let n = a.len() as int;
    let m = n + 1 + o.len();
    let d = m + 1;
    let db = byte_len(a) as int + byte_len(o) + 2;
    let blank = seq![' '];
    lemma_first_char(blank);
    assert(blank.skip(1) =~= seq![]);
    lemma_encoded(a, blank);
    lemma_encoded(a + blank, o);
    lemma_encoded(a + blank + o, blank);
    let xs = char_tokens(a);
    let ys = char_tokens(b);
    assert forall|k: int| 0 <= k < xs.len() implies #[trigger] in_bytes(t, xs[k]) == in_bytes(
        a,
        xs[k],
    ) by {
        lemma_chars_in_order(a, k, k);
        assert(t.take(xs[k].start) =~= a.take(xs[k].start));
        assert(t.take(xs[k].end) =~= a.take(xs[k].end));
    }
    assert(t.take(n + 1) =~= a + blank);
    assert(t.take(m) =~= a + blank + o);
    assert forall|k: int| 0 <= k < ys.len() implies #[trigger] in_bytes(t, later(ys[k], d))
        == later(in_bytes(b, ys[k]), db) by {
        lemma_chars_in_order(b, k, k);
        let head = a + blank + o + blank;
        lemma_encoded(head, b.take(ys[k].start));
        lemma_encoded(head, b.take(ys[k].end));
        assert(t.take(ys[k].start + d) =~= head + b.take(ys[k].start));
        assert(t.take(ys[k].end + d) =~= head + b.take(ys[k].end));
    }
    let all = tokens_of(a) + seq![
        separator(operator_text(o), byte_len(a) as int + 1, byte_len(a) as int + 1 + byte_len(o)),
    ] + all_later(tokens_of(b), db);
    assert forall|k: int| 0 <= k < all.len() implies #[trigger] tokens_of(t)[k] == all[k] by {
        if k < xs.len() {
            assert(char_tokens(t)[k] == xs[k]);
        } else if k > xs.len() {
            let j = k - xs.len() - 1;
            assert(char_tokens(t)[k] == later(ys[j], d));
            assert(all[k] == later(in_bytes(b, ys[j]), db));
        }
    }
    assert(tokens_of(t) =~= all);
}

/// A value, quoted, in front of a command is one word more, and leaves the others as they
/// are, moved.
pub proof fn a_word_in_front_is_a_token(v: Seq<char>, w: Seq<char>)
    ensures
        tokens_of(quoted(v) + seq![' '] + w) == seq![
            TokenV { text: v, is_separator: false, start: 0, end: byte_len(quoted(v)) as int },
        ] + all_later(tokens_of(w), byte_len(quoted(v)) as int + 1),
{
    let q = quoted(v);
    let n = q.len() as int;
    let blank = seq![' '];
    let t = q + blank + w;
    let d = n + 1;
    let db = byte_len(q) as int + 1;
    assert(t.subrange(0, n) =~= q);
    lemma_quoted(t, v, 0, None);
    lemma_rest(t, n, grown(None, 0, v));
    assert(Seq::<char>::empty() + v =~= v);
    assert(moved(w, t, 0, d));
    lemma_moved_rest(w, t, 0, d, None);
    let ys = char_tokens(w);
    let first = TokenV { text: v, is_separator: false, start: 0, end: n };
    assert(char_tokens(t) =~= seq![first] + all_later(ys, d));
    lemma_first_char(blank);
    assert(blank.skip(1) =~= seq![]);
    lemma_encoded(q, blank);
    assert(t.take(0) =~= seq![]);
    assert(t.take(n) =~= q);
    assert forall|k: int| 0 <= k < ys.len() implies #[trigger] in_bytes(t, later(ys[k], d))
        == later(in_bytes(w, ys[k]), db) by {
        lemma_chars_in_order(w, k, k);
        let head = q + blank;
        lemma_encoded(head, w.take(ys[k].start));
        lemma_encoded(head, w.take(ys[k].end));
        assert(t.take(ys[k].start + d) =~= head + w.take(ys[k].start));
        assert(t.take(ys[k].end + d) =~= head + w.take(ys[k].end));
    }
    let all = seq![
        TokenV { text: v, is_separator: false, start: 0, end: byte_len(q) as int },
    ] + all_later(tokens_of(w), db);
    assert forall|k: int| 0 <= k < all.len() implies #[trigger] tokens_of(t)[k] == all[k] by {
        if k > 0 {
            assert(char_tokens(t)[k] == later(ys[k - 1], d));
            assert(all[k] == later(in_bytes(w, ys[k - 1]), db));
        }
    }
    assert(tokens_of(t) =~= all);
}

/// Operators, ends of lines and parentheses part words without blanks around them; blanks,
/// tabs and carriage returns part words too, and are no tokens.
pub proof fn words_are_parted(a: Seq<char>, o: Seq<char>, b: Seq<char>)
    requires
        plain_word(a),
        plain_word(b),
    ensures
        is_operator(o) ==> char_tokens(a + o + b) == seq![
            TokenV { text: a, is_separator: false, start: 0, end: a.len() as int },
            separator(operator_text(o), a.len() as int, a.len() as int + o.len()),
            TokenV {
                text: b,
                is_separator: false,
                start: a.len() as int + o.len(),
                end: a.len() as int + o.len() + b.len(),
            },
        ],
        o == seq![' '] || o == seq!['\t'] || o == seq!['\r'] ==> char_tokens(a + o + b) == seq![
            TokenV { text: a, is_separator: false, start: 0, end: a.len() as int },
            TokenV {
                text: b,
                is_separator: false,
                start: a.len() as int + 1,
                end: a.len() as int + 1 + b.len(),
            },
        ],
{
    let t = a + o + b;
    let n = a.len() as int;
    let m = n + o.len();
    if is_operator(o) || o == seq![' '] || o == seq!['\t'] || o == seq!['\r'] {
        assert(t.subrange(0, n) =~= a);
        lemma_plain(t, a, 0, None);
        assert(t.subrange(n, m) =~= o);
        assert(t[n] == t.subrange(n, m)[0]);
        if o.len() == 2 {
            assert(t[n + 1] == t.subrange(n, m)[1]);
        } else {
            assert(t[m] == b[0]);
            assert(shell_safe(b[0]));
        }
        lemma_rest(t, n, grown(None, 0, a));
        assert(t.subrange(m, t.len() as int) =~= b);
        lemma_plain(t, b, m, None);
        lemma_rest(t, t.len() as int, grown(None, m, b));
        assert(Seq::<char>::empty() + a =~= a);
        assert(Seq::<char>::empty() + b =~= b);
        if is_operator(o) {
            assert(char_tokens(t) =~= seq![
                TokenV { text: a, is_separator: false, start: 0, end: n },
                separator(operator_text(o), n, m),
                TokenV { text: b, is_separator: false, start: m, end: t.len() as int },
            ]);
        } else {
            assert(char_tokens(t) =~= seq![
                TokenV { text: a, is_separator: false, start: 0, end: n },
                TokenV { text: b, is_separator: false, start: m, end: t.len() as int },
            ]);
        }
    }
}

/// A value between double quotes: a quote, a backslash, a dollar sign and a backtick each
/// have a backslash in front.
pub open spec fn escaped(v: Seq<char>) -> Seq<char>
    decreases v.len(),
{
    if v.len() == 0 {
        seq![]
    } else if v[0] == '"' || v[0] == '\\' || v[0] == '$' || v[0] == '`' {
        seq!['\\', v[0]] + escaped(v.skip(1))
    } else {
        seq![v[0]] + escaped(v.skip(1))
    }
}

proof fn lemma_escaped(s: Seq<char>, i: int, v: Seq<char>, acc: Seq<char>)
    requires
        0 <= i,
        i + escaped(v).len() < s.len(),
        s.subrange(i, i + escaped(v).len()) == escaped(v),
        s[i + escaped(v).len()] == '"',
    ensures
        double_quoted(s, i, acc) == (acc + v, i + escaped(v).len() + 1),
    decreases v.len(),
{
    let e = escaped(v);
    if v.len() == 0 {
        assert(acc + v =~= acc);
    } else {
        let w = v.skip(1);
        let f = escaped(w);
        let k = e.len() - f.len();
        assert forall|x: int| 0 <= x < e.len() implies s[i + x] == e[x] by {
            assert(s.subrange(i, i + e.len())[x] == s[i + x]);
        }
        assert(s.subrange(i + k, i + k + f.len()) =~= f) by {
            assert forall|x: int| 0 <= x < f.len() implies s[i + k + x] == f[x] by {
                assert(e[k + x] == f[x]);
            }
        }
        assert(s[i] == e[0]);
        if k == 2 {
            assert(s[i + 1] == e[1]);
        }
        lemma_escaped(s, i + k, w, acc.push(v[0]));
        assert(acc.push(v[0]) + w =~= acc + v);
    }
}

/// Whatever a value holds, between double quotes it is one word whose text is the value.
pub proof fn a_double_quoted_value_is_one_word(v: Seq<char>)
    ensures
        char_tokens(seq!['"'] + escaped(v) + seq!['"']) == seq![
            TokenV {
                text: v,
                is_separator: false,
                start: 0,
                end: escaped(v).len() as int + 2,
            },
        ],
{
    let e = escaped(v);
    let t = seq!['"'] + e + seq!['"'];
    assert(t.subrange(1, 1 + e.len() as int) =~= e);
    lemma_escaped(t, 1, v, seq![]);
    lemma_rest(t, 0, None);
    lemma_rest(t, t.len() as int, grown(None, 0, v));
    assert(Seq::<char>::empty() + v =~= v);
}

/// A backslash takes the meaning from the character behind it; between double quotes it is
/// kept, where that character has none.
pub proof fn a_backslash_quotes_one_character(c: char)
    requires
        c != '\n',
        c != '\r',
    ensures
        char_tokens(seq!['\\', c]) == seq![
            TokenV { text: seq![c], is_separator: false, start: 0, end: 2 },
        ],
        c != '"' && c != '\\' && c != '$' && c != '`' ==> char_tokens(seq!['"', '\\', c, '"'])
            == seq![TokenV { text: seq!['\\', c], is_separator: false, start: 0, end: 4 }],
{
    let t = seq!['\\', c];
    lemma_rest(t, 0, None);
    lemma_rest(t, 2, grown(None, 0, seq![c]));
    assert(Seq::<char>::empty() + seq![c] =~= seq![c]);
    if c != '"' && c != '\\' && c != '$' && c != '`' {
        let q = seq!['"', '\\', c, '"'];
        let kept = seq!['\\', c];
        let none = Seq::<char>::empty();
        assert(none.push('\\').push(c) =~= kept);
        assert(double_quoted(q, 3, kept) == (kept, 4int));
        assert(double_quoted(q, 1, none) == double_quoted(q, 3, kept));
        lemma_rest(q, 0, None);
        lemma_rest(q, 4, grown(None, 0, kept));
        assert(none + kept =~= kept);
    }
}

/// A backslash at the end of a line joins it with the next one.
pub proof fn a_line_that_goes_on_is_one(a: Seq<char>, b: Seq<char>)
    requires
        plain_word(a),
        plain_word(b),
    ensures
        char_tokens(a + seq!['\\', '\n'] + b) == seq![
            TokenV {
                text: a + b,
                is_separator: false,
                start: 0,
                end: a.len() as int + 2 + b.len(),
            },
        ],
{
    let t = a + seq!['\\', '\n'] + b;
    let n = a.len() as int;
    assert(t.subrange(0, n) =~= a);
    lemma_plain(t, a, 0, None);
    assert(t[n] == '\\' && t[n + 1] == '\n');
    lemma_rest(t, n, grown(None, 0, a));
    assert(t.subrange(n + 2, t.len() as int) =~= b);
    lemma_plain(t, b, n + 2, grown(None, 0, a));
    lemma_rest(t, t.len() as int, grown(grown(None, 0, a), n + 2, b));
    assert(Seq::<char>::empty() + a + b =~= a + b);
}

proof fn lemma_chars_in_parentheses(w: Seq<char>)
    ensures
        char_tokens(seq!['(', ' '] + w) == seq![separator(seq!['('], 0, 1)] + all_later(
            char_tokens(w),
            2,
        ),
{
    let t = seq!['(', ' '] + w;
    lemma_rest(t, 0, None);
    lemma_rest(t, 1, None);
    assert(moved(w, t, 0, 2));
    lemma_moved_rest(w, t, 0, 2, None);
    assert(char_tokens(t) =~= seq![separator(seq!['('], 0, 1)] + all_later(char_tokens(w), 2));
}

/// A parenthesis in front of a command is a token of its own, and leaves the others as they
/// are, moved; a command that ends in a word still does.
pub proof fn a_parenthesis_in_front_is_a_token(w: Seq<char>)
    ensures
        tokens_of(seq!['(', ' '] + w) == seq![separator(seq!['('], 0, 1)] + all_later(
            tokens_of(w),
            2,
        ),
        ends_in_a_word(w) ==> ends_in_a_word(seq!['(', ' '] + w),
{
    let head = seq!['(', ' '];
    let t = head + w;
    lemma_chars_in_parentheses(w);
    lemma_chars_in_parentheses(w.push(' '));
    assert(head + w.push(' ') =~= t.push(' '));
    let ys = char_tokens(w);
    lemma_first_char(head);
    assert(head.skip(1) =~= seq![' ']);
    lemma_first_char(seq![' ']);
    assert(seq![' '].skip(1) =~= seq![]);
    assert(byte_len(head) == 2);
    lemma_first_char(seq!['(']);
    assert(seq!['('].skip(1) =~= seq![]);
    assert(t.take(0) =~= seq![]);
    assert(t.take(1) =~= seq!['(']);
    assert forall|k: int| 0 <= k < ys.len() implies #[trigger] in_bytes(t, later(ys[k], 2))
        == later(in_bytes(w, ys[k]), 2) by {
        lemma_chars_in_order(w, k, k);
        lemma_encoded(head, w.take(ys[k].start));
        lemma_encoded(head, w.take(ys[k].end));
        assert(t.take(ys[k].start + 2) =~= head + w.take(ys[k].start));
        assert(t.take(ys[k].end + 2) =~= head + w.take(ys[k].end));
    }
    let all = seq![separator(seq!['('], 0, 1)] + all_later(tokens_of(w), 2);
    assert forall|k: int| 0 <= k < all.len() implies #[trigger] tokens_of(t)[k] == all[k] by {
        if k > 0 {
            assert(char_tokens(t)[k] == later(ys[k - 1], 2));
            assert(all[k] == later(in_bytes(w, ys[k - 1]), 2));
        }
    }
    assert(tokens_of(t) =~= all);
    if ends_in_a_word(w) {
        assert(char_tokens(t).last() == later(ys.last(), 2));
    }
}

} // verus!
