//! `TASK_NOTES.md` — the written record a task leaves behind.
//!
//! The point of this file is cross-agent context: an agent answering PR review comments
//! must be able to read why the implementing agent did what it did. The notes live in the
//! worktree as an ordinary committed file, so they travel with the branch, show up in the
//! diff like any other change, and survive Maestro entirely.
//!
//! Nothing about notes is persisted in the store: everything here is derived from the
//! file, so a missing worktree is a *state* ([`Notes::exists`] false with a reason), never
//! an error.
use crate::bus::{Event, EventV};
use crate::error::{is_invalid_data, MaestroError};
use crate::prompts::FileRead;
use crate::text::{
    before_run, before_space, char_views, chars_of, find_char, has_prefix, has_suffix, is_at,
    is_blank, is_white_space, join, join_lines, lemma_before_space, lemma_next_char, next_char,
    occurs_at, opt_view, push_all, replace_from, same_text, starts_with, string_of, text_of, trim,
    trim_end, trim_end_is_idempotent, trim_text, trimmed, trimmed_end, windows_text,
};
use vstd::prelude::*;
use vstd::slice::slice_subrange;
use vstd::string::*;

verus! {

/// The notes file's name in the worktree root. Committed like any other file.
pub const NOTES_FILE: &'static str = "TASK_NOTES.md";

/// Heading the Q&A pairs live under.
pub const QA_HEADING: &'static str = "## Q&A";

/// One `##` section of the notes. Unknown sections are kept: the file is user-editable and
/// losing content nobody expected would be worse than rendering it verbatim.
#[derive(Debug)]
pub struct NoteSection {
    pub title: String,
    pub body: String,
}

#[verifier::ext_equal]
pub struct SectionV {
    pub title: Seq<char>,
    pub body: Seq<char>,
}

impl View for NoteSection {
    type V = SectionV;

    open spec fn view(&self) -> SectionV {
        SectionV { title: self.title@, body: self.body@ }
    }
}

pub open spec fn section_views(s: Seq<NoteSection>) -> Seq<SectionV> {
    s.map_values(|x: NoteSection| x@)
}

// ---------------------------------------------------------------------------
// Sections
// ---------------------------------------------------------------------------

/// `s` without the carriage returns at its end.
pub open spec fn trim_cr(s: Seq<char>) -> Seq<char> {
    s.subrange(0, before_run(s, '\r', s.len() as int))
}

/// The lines of `s[i..]`, without the carriage returns at their ends.
pub open spec fn note_lines_from(s: Seq<char>, i: int) -> Seq<Seq<char>>
    decreases s.len() - i,
{
    if i < 0 || i >= s.len() {
        seq![]
    } else {
        let j = next_char(s, '\n', i);
        if j < i || j >= s.len() {
            seq![trim_cr(s.subrange(i, s.len() as int))]
        } else {
            seq![trim_cr(s.subrange(i, j))] + note_lines_from(s, j + 1)
        }
    }
}

/// The section that ends here. A preamble with no heading is only worth keeping when it
/// actually says something.
pub open spec fn kept_section(title: Seq<char>, body: Seq<Seq<char>>) -> Seq<SectionV> {
    let text = trim(join(body, seq!['\n']));
    if title.len() == 0 && text.len() == 0 {
        seq![]
    } else {
        seq![SectionV { title, body: text }]
    }
}

pub open spec fn heading_mark() -> Seq<char> {
    seq!['#', '#', ' ']
}

/// The sections of the lines from `i` on, the first of which continue the section under
/// `title` that already holds `body`.
pub open spec fn sections_from(
    lines: Seq<Seq<char>>,
    i: int,
    title: Seq<char>,
    body: Seq<Seq<char>>,
) -> Seq<SectionV>
    decreases lines.len() - i,
{
    if i < 0 || i >= lines.len() {
        kept_section(title, body)
    } else if has_prefix(lines[i], heading_mark()) {
        kept_section(title, body) + sections_from(
            lines,
            i + 1,
            trim(lines[i].subrange(3, lines[i].len() as int)),
            seq![],
        )
    } else {
        sections_from(lines, i + 1, title, body.push(lines[i]))
    }
}

/// The `##` sections of a markdown text; what stands before the first heading is a section
/// under an empty title.
pub open spec fn sections_of(raw: Seq<char>) -> Seq<SectionV> {
    sections_from(note_lines_from(raw, 0), 0, seq![], seq![])
}

fn without_cr<'a>(s: &'a [char]) -> (r: &'a [char])
    ensures
        r@ == trim_cr(s@),
{
    let mut j: usize = s.len();
    while j > 0 && s[j - 1] == '\r'
        invariant
            j <= s@.len(),
            before_run(s@, '\r', s@.len() as int) == before_run(s@, '\r', j as int),
        decreases j,
    {
        j -= 1;
    }
    slice_subrange(s, 0, j)
}

fn copy_chars(s: &[char]) -> (v: Vec<char>)
    ensures
        v@ == s@,
{
    let mut v: Vec<char> = Vec::new();
    push_all(&mut v, s);
    assert(v@ =~= s@);
    v
}

fn note_lines(s: &[char]) -> (r: Vec<Vec<char>>)
    ensures
        char_views(r@) == note_lines_from(s@, 0),
{
    let mut r: Vec<Vec<char>> = Vec::new();
    let mut i: usize = 0;
    assert(char_views(r@) + note_lines_from(s@, 0) =~= note_lines_from(s@, 0));
    while i < s.len()
        invariant
            i <= s@.len(),
            char_views(r@) + note_lines_from(s@, i as int) == note_lines_from(s@, 0),
        decreases s@.len() - i,
    {
        let j: usize = find_char(s, '\n', i);
        let ghost done = char_views(r@);
        proof {
            lemma_next_char(s@, '\n', i as int);
        }
        let line: Vec<char> = copy_chars(without_cr(slice_subrange(s, i, j)));
        let ghost l = line@;
        r.push(line);
        assert(char_views(r@) =~= done.push(l));
        if j == s.len() {
            assert(char_views(r@) + note_lines_from(s@, j as int) =~= done + note_lines_from(
                s@,
                i as int,
            ));
            i = j;
        } else {
            assert(char_views(r@) + note_lines_from(s@, j + 1) =~= done + note_lines_from(
                s@,
                i as int,
            ));
            i = j + 1;
        }
    }
    assert(char_views(r@) + note_lines_from(s@, i as int) =~= char_views(r@));
    r
}

fn push_section(sections: &mut Vec<NoteSection>, title: &str, body: &Vec<Vec<char>>)
    ensures
        section_views(final(sections)@) == section_views(old(sections)@) + kept_section(
            title@,
            char_views(body@),
        ),
{
    let ghost done = section_views(sections@);
    let joined: Vec<char> = join_lines(body);
    let text: String = string_of(trimmed(joined.as_slice()));
    if title.is_empty() && text.as_str().is_empty() {
        assert(done + Seq::<SectionV>::empty() =~= done);
        return;
    }
    let ghost t = text@;
    sections.push(NoteSection { title: text_of(title), body: text });
    assert(section_views(sections@) =~= done + seq![SectionV { title: title@, body: t }]);
}

/// Split markdown into its `##` sections. Content before the first heading is kept under an
/// empty title so nothing is dropped, and CRLF input parses the same as LF.
pub fn parse_sections(raw: &str) -> (r: Vec<NoteSection>)
    ensures
        section_views(r@) == sections_of(raw@),
{
    let s: Vec<char> = chars_of(raw);
    let lines: Vec<Vec<char>> = note_lines(s.as_slice());
    let ghost ls = char_views(lines@);
    let mark: Vec<char> = vec!['#', '#', ' '];
    assert(mark@ =~= heading_mark());
    let mut sections: Vec<NoteSection> = Vec::new();
    let mut title: String = String::new();
    let mut body: Vec<Vec<char>> = Vec::new();
    let mut i: usize = 0;
    assert(char_views(body@) =~= seq![]);
    assert(title@ =~= seq![]);
    assert(section_views(sections@) + sections_of(raw@) =~= sections_of(raw@));
    while i < lines.len()
        invariant
            i <= lines@.len(),
            ls == char_views(lines@),
            mark@ == heading_mark(),
            section_views(sections@) + sections_from(ls, i as int, title@, char_views(body@))
                == sections_of(raw@),
        decreases lines@.len() - i,
    {
        assert(ls[i as int] == lines@[i as int]@);
        let ghost done = section_views(sections@);
        let ghost had = char_views(body@);
        let line: &[char] = lines[i].as_slice();
        if starts_with(line, mark.as_slice()) {
            push_section(&mut sections, title.as_str(), &body);
            let ghost kept = kept_section(title@, had);
            title = string_of(trimmed(slice_subrange(line, 3, line.len())));
            body = Vec::new();
            assert(char_views(body@) =~= seq![]);
            assert(done + (kept + sections_from(ls, i + 1, title@, seq![])) =~= (done + kept)
                + sections_from(ls, i + 1, title@, seq![]));
        } else {
            let copy: Vec<char> = copy_chars(line);
            body.push(copy);
            assert(char_views(body@) =~= had.push(ls[i as int]));
        }
        i += 1;
    }
    push_section(&mut sections, title.as_str(), &body);
    sections
}

proof fn lemma_before_run(s: Seq<char>, j: int)
    requires
        0 <= j <= s.len(),
    ensures
        0 <= before_run(s, '\r', j) <= j,
    decreases j,
{
    if j > 0 && s[j - 1] == '\r' {
        lemma_before_run(s, j - 1);
    }
}

proof fn lemma_run_prefix(s: Seq<char>, t: Seq<char>, j: int)
    requires
        0 <= j <= s.len(),
        j <= t.len(),
        forall|k: int| 0 <= k < j ==> s[k] == t[k],
    ensures
        before_run(s, '\r', j) == before_run(t, '\r', j),
    decreases j,
{
    if j > 0 {
        assert(s[j - 1] == t[j - 1]);
        lemma_run_prefix(s, t, j - 1);
    }
}

/// A carriage return at the end of a line makes no difference.
proof fn lemma_trim_cr_push(s: Seq<char>)
    ensures
        trim_cr(s.push('\r')) == trim_cr(s),
{
    let t = s.push('\r');
    lemma_run_prefix(s, t, s.len() as int);
    lemma_before_run(s, s.len() as int);
    assert(before_run(t, '\r', t.len() as int) == before_run(s, '\r', s.len() as int));
    assert(trim_cr(t) =~= trim_cr(s));
}

proof fn lemma_next_char_shift(a: Seq<char>, b: Seq<char>, c: char, j: int)
    requires
        0 <= j <= b.len(),
    ensures
        next_char(a + b, c, a.len() + j) == a.len() + next_char(b, c, j),
    decreases b.len() - j,
{
    if j < b.len() {
        assert((a + b)[a.len() + j] == b[j]);
        if b[j] != c {
            lemma_next_char_shift(a, b, c, j + 1);
        }
    }
}

proof fn lemma_lines_shift(a: Seq<char>, b: Seq<char>, j: int)
    requires
        0 <= j <= b.len(),
    ensures
        note_lines_from(a + b, a.len() + j) == note_lines_from(b, j),
    decreases b.len() - j,
{
    if j < b.len() {
        let s = a + b;
        lemma_next_char_shift(a, b, '\n', j);
        lemma_next_char(b, '\n', j);
        let n = next_char(b, '\n', j);
        assert(s.subrange(a.len() + j, a.len() + n) =~= b.subrange(j, n));
        if n < b.len() {
            lemma_lines_shift(a, b, n + 1);
        } else {
            assert(s.subrange(a.len() + j, s.len() as int) =~= b.subrange(j, b.len() as int));
        }
    }
}

/// Up to the line feed at `n`, text stays as it is under [`windows_text`].
proof fn lemma_windows_line(s: Seq<char>, i: int, n: int)
    requires
        0 <= i <= n <= s.len(),
        forall|k: int| i <= k < n ==> s[k] != '\n',
    ensures
        replace_from(s, seq!['\n'], seq!['\r', '\n'], i) == s.subrange(i, n) + replace_from(
            s,
            seq!['\n'],
            seq!['\r', '\n'],
            n,
        ),
    decreases n - i,
{
    let lf = seq!['\n'];
    let crlf = seq!['\r', '\n'];
    if i < n {
        if occurs_at(s, lf, i) {
            assert(s.subrange(i, i + 1)[0] == s[i]);
            assert(lf[0] == '\n');
        }
        lemma_windows_line(s, i + 1, n);
        assert(seq![s[i]] + s.subrange(i + 1, n) =~= s.subrange(i, n));
        assert(replace_from(s, lf, crlf, i) =~= s.subrange(i, n) + replace_from(s, lf, crlf, n));
    } else {
        assert(s.subrange(i, n) + replace_from(s, lf, crlf, n) =~= replace_from(s, lf, crlf, n));
    }
}

proof fn lemma_windows_lines(s: Seq<char>, i: int)
    requires
        0 <= i <= s.len(),
    ensures
        note_lines_from(replace_from(s, seq!['\n'], seq!['\r', '\n'], i), 0) == note_lines_from(
            s,
            i,
        ),
    decreases s.len() - i,
{
    let lf = seq!['\n'];
    let crlf = seq!['\r', '\n'];
    let w = replace_from(s, lf, crlf, i);
    if i < s.len() {
        lemma_next_char(s, '\n', i);
        let n = next_char(s, '\n', i);
        lemma_windows_line(s, i, n);
        let line = s.subrange(i, n);
        if n < s.len() {
            assert(s.subrange(n, n + 1) =~= lf);
            let rest = replace_from(s, lf, crlf, n + 1);
            let head = line + crlf;
            assert(w =~= head + rest);
            let k = line.len() as int + 1;
            assert(w[k] == '\n');
            assert forall|q: int| 0 <= q < k implies w[q] != '\n' by {
                if q < line.len() {
                    assert(w[q] == s[i + q]);
                } else {
                    assert(w[q] == '\r');
                }
            }
            lemma_next_char(w, '\n', 0);
            assert(next_char(w, '\n', 0) == k);
            assert(w.subrange(0, k) =~= line.push('\r'));
            lemma_trim_cr_push(line);
            lemma_windows_lines(s, n + 1);
            lemma_lines_shift(head, rest, 0);
            assert(head.len() == k + 1);
            assert(note_lines_from(w, 0) =~= note_lines_from(s, i));
        } else {
            assert(w =~= line);
            assert forall|q: int| 0 <= q < w.len() implies w[q] != '\n' by {
                assert(w[q] == s[i + q]);
            }
            lemma_next_char(w, '\n', 0);
            assert(w.subrange(0, w.len() as int) =~= line);
        }
    } else {
        assert(w =~= seq![]);
    }
}

/// Notes with Windows line endings have the same sections.
pub proof fn crlf_parses_like_lf(raw: Seq<char>)
    ensures
        sections_of(windows_text(raw)) == sections_of(raw),
{
    lemma_windows_lines(raw, 0);
}

// ---------------------------------------------------------------------------
// Questions and answers
// ---------------------------------------------------------------------------

/// One Q&A entry: where it was asked about, the question, the answer.
pub open spec fn qa_entry(context: Seq<char>, question: Seq<char>, answer: Seq<char>) -> Seq<
    char,
> {
    "### "@ + context + "\n\n**Q:** "@ + trim(question) + "\n\n"@ + trim(answer) + "\n"@
}

pub fn format_qa(context: &str, question: &str, answer: &str) -> (r: String)
    ensures
        r@ == qa_entry(context@, question@, answer@),
{
    text_of("### ").concat(context).concat("\n\n**Q:** ").concat(
        trim_text(question).as_str(),
    ).concat("\n\n").concat(trim_text(answer).as_str()).concat("\n")
}

/// Whether the line that begins at `i` is the heading of the Q&A section.
pub open spec fn is_qa_line(s: Seq<char>, i: int) -> bool {
    trim_end(s.subrange(i, next_char(s, '\n', i))) == QA_HEADING@
}

/// Where the first heading of a Q&A section begins, from the line at `i` on.
pub open spec fn qa_line(s: Seq<char>, i: int) -> Option<int>
    decreases s.len() - i,
{
    if i < 0 || i >= s.len() {
        None
    } else if is_qa_line(s, i) {
        Some(i)
    } else if next_char(s, '\n', i) < i || next_char(s, '\n', i) >= s.len() {
        None
    } else {
        qa_line(s, next_char(s, '\n', i) + 1)
    }
}

/// Where the first line from the one at `i` on begins that is a heading; the end of the text
/// if there is none.
pub open spec fn next_heading(s: Seq<char>, i: int) -> int
    decreases s.len() - i,
{
    if i < 0 || i >= s.len() {
        s.len() as int
    } else if occurs_at(s, heading_mark(), i) {
        i
    } else if next_char(s, '\n', i) < i || next_char(s, '\n', i) >= s.len() {
        s.len() as int
    } else {
        next_heading(s, next_char(s, '\n', i) + 1)
    }
}

/// Where the Q&A section ends (the next heading, or the end), if there is one.
pub open spec fn qa_end(s: Seq<char>) -> Option<int> {
    match qa_line(s, 0) {
        Some(i) => Some(next_heading(s, next_char(s, '\n', i) + 1)),
        None => None,
    }
}

/// What stands behind an insertion point.
pub open spec fn tail_text(after: Seq<char>) -> Seq<char> {
    if is_blank(after) {
        "\n"@
    } else {
        "\n\n"@ + trim(after) + "\n"@
    }
}

/// `raw` with `entry` at the end of its Q&A section, which is added where it is missing.
pub open spec fn with_qa(raw: Seq<char>, entry: Seq<char>) -> Seq<char> {
    let s = trim_end(raw);
    match qa_end(s) {
        Some(end) => trim_end(s.subrange(0, end)) + "\n\n"@ + trim_end(entry) + tail_text(
            s.subrange(end, s.len() as int),
        ),
        None => s + (if s.len() == 0 {
            ""@
        } else {
            "\n\n"@
        }) + QA_HEADING@ + "\n\n"@ + trim_end(entry) + "\n"@,
    }
}

proof fn lemma_next_heading(s: Seq<char>, i: int)
    requires
        0 <= i,
    ensures
        next_heading(s, i) <= s.len(),
        i <= s.len() ==> i <= next_heading(s, i),
        next_heading(s, i) < s.len() ==> occurs_at(s, heading_mark(), next_heading(s, i)),
    decreases s.len() - i,
{
    if i < s.len() && !occurs_at(s, heading_mark(), i) {
        lemma_next_char(s, '\n', i);
        if next_char(s, '\n', i) < s.len() {
            lemma_next_heading(s, next_char(s, '\n', i) + 1);
        }
    }
}

/// Where the named section's body ends (the next `## ` heading, or the end).
fn section_bounds(s: &[char]) -> (r: Option<usize>)
    ensures
        match r {
            Some(end) => qa_end(s@) == Some(end as int) && end <= s@.len(),
            None => qa_end(s@) is None,
        },
{
    let n: usize = s.len();
    let mark: Vec<char> = vec!['#', '#', ' '];
    assert(mark@ =~= heading_mark());
    let mut i: usize = 0;
    while i < n
        invariant
            n == s@.len(),
            i <= n,
            mark@ == heading_mark(),
            qa_line(s@, 0) == qa_line(s@, i as int),
        decreases n - i,
    {
        proof {
            lemma_next_char(s@, '\n', i as int);
        }
        let j: usize = find_char(s, '\n', i);
        let line: String = string_of(trimmed_end(slice_subrange(s, i, j)));
        if same_text(line.as_str(), QA_HEADING) {
            let ghost from = j + 1;
            if j >= n {
                return Some(n);
            }
            let mut k: usize = j + 1;
            while k < n
                invariant
                    n == s@.len(),
                    k <= n,
                    mark@ == heading_mark(),
                    qa_end(s@) == Some(next_heading(s@, k as int)),
                decreases n - k,
            {
                if is_at(s, mark.as_slice(), k) {
                    return Some(k);
                }
                proof {
                    lemma_next_char(s@, '\n', k as int);
                }
                let e: usize = find_char(s, '\n', k);
                if e >= n {
                    return Some(n);
                }
                k = e + 1;
            }
            return Some(n);
        }
        if j >= n {
            return None;
        }
        i = j + 1;
    }
    None
}

/// The remainder of the file after an insertion point.
fn tail(after: &[char]) -> (r: String)
    ensures
        r@ == tail_text(after@),
{
    let t: &[char] = trimmed(after);
    if t.len() == 0 {
        text_of("\n")
    } else {
        text_of("\n\n").concat(string_of(t).as_str()).concat("\n")
    }
}

/// Put `entry` at the end of the `## Q&A` section, adding the section when it is missing.
/// Everything else in the file is left exactly as it was — the user (and the agent that
/// wrote the rest) own those sections.
pub fn insert_into_qa(raw: &str, entry: &str) -> (r: String)
    ensures
        r@ == with_qa(raw@, entry@),
{
    let whole: Vec<char> = chars_of(raw);
    let s: &[char] = trimmed_end(whole.as_slice());
    let e: Vec<char> = chars_of(entry);
    let entry: String = string_of(trimmed_end(e.as_slice()));
    match section_bounds(s) {
        Some(end) => string_of(trimmed_end(slice_subrange(s, 0, end))).concat("\n\n").concat(
            entry.as_str(),
        ).concat(tail(slice_subrange(s, end, s.len())).as_str()),
        None => {
            let separator: &str = if s.len() == 0 {
                ""
            } else {
                "\n\n"
            };
            string_of(s).concat(separator).concat(QA_HEADING).concat("\n\n").concat(
                entry.as_str(),
            ).concat("\n")
        },
    }
}

proof fn lemma_qa_line(s: Seq<char>, i: int)
    requires
        0 <= i,
    ensures
        qa_line(s, i) matches Some(p) ==> i <= p < s.len() && is_qa_line(s, p) && (p == i || s[p - 1]
            == '\n'),
    decreases s.len() - i,
{
    if i < s.len() && !is_qa_line(s, i) {
        lemma_next_char(s, '\n', i);
        if next_char(s, '\n', i) < s.len() {
            lemma_qa_line(s, next_char(s, '\n', i) + 1);
        }
    }
}

/// A heading line at the start of a line is found, if no earlier one is.
proof fn lemma_qa_line_found(s: Seq<char>, i: int, p: int)
    requires
        0 <= i <= p < s.len(),
        is_qa_line(s, p),
        p == i || s[p - 1] == '\n',
    ensures
        qa_line(s, i) is Some,
    decreases p - i,
{
    if i < p && !is_qa_line(s, i) {
        lemma_next_char(s, '\n', i);
        assert(s[p - 1] == '\n');
        assert(next_char(s, '\n', i) <= p - 1);
        lemma_qa_line_found(s, next_char(s, '\n', i) + 1, p);
    }
}

/// A heading with white space behind it on its line is a heading.
proof fn lemma_heading_line(s: Seq<char>, p: int)
    requires
        0 <= p,
        p + 6 <= s.len(),
        s.subrange(p, p + 6) == QA_HEADING@,
        forall|k: int| p + 6 <= k < next_char(s, '\n', p + 6) ==> is_white_space(#[trigger] s[k]),
    ensures
        is_qa_line(s, p),
{
    reveal_strlit("## Q&A");
    assert(QA_HEADING@.len() == 6);
    let h = s.subrange(p, p + 6);
    assert(h[0] == '#' && h[1] == '#' && h[2] == ' ' && h[3] == 'Q' && h[4] == '&' && h[5] == 'A');
    assert(forall|k: int| p <= k < p + 6 ==> s[k] == h[k - p]);
    lemma_next_char(s, '\n', p);
    lemma_next_char(s, '\n', p + 6);
    let n = next_char(s, '\n', p + 6);
    assert(next_char(s, '\n', p) == n) by {
        if next_char(s, '\n', p) < n {
            assert(s[next_char(s, '\n', p)] == '\n');
        }
    }
    let line = s.subrange(p, n);
    lemma_before_space(line, line.len() as int);
    let e = before_space(line, line.len() as int);
    assert(e <= 6) by {
        if e > 6 {
            assert(is_white_space(s[p + e - 1]));
            assert(line[e - 1] == s[p + e - 1]);
        }
    }
    assert(e >= 6) by {
        if e < 6 {
            assert(line[5] == 'A');
        }
    }
    assert(trim_end(line) =~= h);
}

/// After an entry was added there is a Q&A section, so the next entry joins it.
pub proof fn an_entry_leaves_a_qa_section(raw: Seq<char>, entry: Seq<char>)
    ensures
        qa_line(with_qa(raw, entry), 0) is Some,
{
    reveal_strlit("## Q&A");
    reveal_strlit("\n\n");
    reveal_strlit("");
    let s = trim_end(raw);
    let r = with_qa(raw, entry);
    match qa_end(s) {
        None => {
            let lead = s + (if s.len() == 0 {
                ""@
            } else {
                "\n\n"@
            });
            let p = lead.len() as int;
            assert(r == lead + QA_HEADING@ + "\n\n"@ + trim_end(entry) + "\n"@);
            assert(r.subrange(p, p + 6) =~= QA_HEADING@);
            assert(r[p + 6] == "\n\n"@[0]);
            assert(next_char(r, '\n', p + 6) == p + 6);
            lemma_heading_line(r, p);
            if s.len() > 0 {
                assert(r[p - 1] == "\n\n"@[1]);
            }
            lemma_qa_line_found(r, 0, p);
        },
        Some(end) => {
            lemma_qa_line(s, 0);
            let p = qa_line(s, 0)->0;
            lemma_next_char(s, '\n', p);
            let nl = next_char(s, '\n', p);
            lemma_next_heading(s, nl + 1);
            let line = s.subrange(p, nl);
            lemma_before_space(line, line.len() as int);
            let e = before_space(line, line.len() as int);
            assert(trim_end(line) == line.subrange(0, e));
            assert(QA_HEADING@.len() == 6);
            assert(e == 6);
            assert(s.subrange(p, p + 6) =~= QA_HEADING@);
            let part = s.subrange(0, end);
            assert(nl <= end);
            lemma_before_space(part, part.len() as int);
            let q = before_space(part, part.len() as int);
            let before = part.subrange(0, q);
            assert(part[p + 5] == line[5]);
            assert(line.subrange(0, 6)[5] == 'A');
            assert(q >= p + 6);
            assert(trim_end(part) == before);
            let rest = trim_end(entry) + tail_text(s.subrange(end, s.len() as int));
            assert(r =~= before + "\n\n"@ + rest);
            assert(r.subrange(p, p + 6) =~= QA_HEADING@);
            lemma_next_char(r, '\n', p + 6);
            assert(r[q] == "\n\n"@[0]);
            assert(next_char(r, '\n', p + 6) <= q);
            assert forall|k: int| p + 6 <= k < next_char(r, '\n', p + 6) implies is_white_space(
                #[trigger] r[k],
            ) by {
                assert(r[k] == s[k]);
                assert(r[k] != '\n');
                assert(k < nl) by {
                    if k >= nl {
                        assert(s[nl] == '\n');
                        assert(r[nl] == s[nl]);
                    }
                }
                assert(line[k - p] == s[k]);
            }
            lemma_heading_line(r, p);
            if p > 0 {
                assert(r[p - 1] == s[p - 1]);
            }
            lemma_qa_line_found(r, 0, p);
        },
    }
}

/// What stood in the notes stays: up to the end of the Q&A section in front of the new
/// entry, and the later sections behind it.
pub proof fn appending_keeps_the_rest(raw: Seq<char>, entry: Seq<char>)
    ensures
        ({
            let s = trim_end(raw);
            let end = match qa_end(s) {
                Some(end) => end,
                None => s.len() as int,
            };
            let after = trim(s.subrange(end, s.len() as int));
            &&& 0 <= end <= s.len()
            &&& has_prefix(with_qa(raw, entry), trim_end(s.subrange(0, end)))
            &&& after.len() > 0 ==> has_suffix(with_qa(raw, entry), after.push('\n'))
        }),
{
    reveal_strlit("\n");
    let s = trim_end(raw);
    let r = with_qa(raw, entry);
    match qa_end(s) {
        Some(end) => {
            lemma_qa_line(s, 0);
            lemma_next_char(s, '\n', qa_line(s, 0)->0);
            lemma_next_heading(s, next_char(s, '\n', qa_line(s, 0)->0) + 1);
            let before = trim_end(s.subrange(0, end));
            let after = trim(s.subrange(end, s.len() as int));
            assert(r.subrange(0, before.len() as int) =~= before);
            if after.len() > 0 {
                let a = after.push('\n');
                assert("\n"@ =~= seq!['\n']);
                assert(r.subrange(r.len() - a.len(), r.len() as int) =~= a);
            }
        },
        None => {
            trim_end_is_idempotent(raw);
            assert(s.subrange(0, s.len() as int) =~= s);
            assert(r.subrange(0, s.len() as int) =~= s);
            assert(trim(s.subrange(s.len() as int, s.len() as int)).len() == 0);
        },
    }
}

// ---------------------------------------------------------------------------
// The notes of a branch
// ---------------------------------------------------------------------------

/// The notes of one branch, as read from its worktree.
#[derive(Debug)]
pub struct Notes {
    pub branch: String,
    /// Absolute path the notes would live at, when a worktree exists.
    pub path: Option<String>,
    pub exists: bool,
    /// Why the notes are unavailable, when they are (no worktree, unreadable file).
    pub unavailable: Option<String>,
    pub sections: Vec<NoteSection>,
    /// The whole file, so the UI can render markdown rather than re-assemble sections.
    pub raw: String,
    /// Nanoseconds since the Unix epoch.
    pub updated_at: Option<i128>,
}

#[verifier::ext_equal]
pub struct NotesV {
    pub branch: Seq<char>,
    pub path: Option<Seq<char>>,
    pub exists: bool,
    pub unavailable: Option<Seq<char>>,
    pub sections: Seq<SectionV>,
    pub raw: Seq<char>,
    pub updated_at: Option<i128>,
}

impl View for Notes {
    type V = NotesV;

    open spec fn view(&self) -> NotesV {
        NotesV {
            branch: self.branch@,
            path: opt_view(self.path),
            exists: self.exists,
            unavailable: opt_view(self.unavailable),
            sections: section_views(self.sections@),
            raw: self.raw@,
            updated_at: self.updated_at,
        }
    }
}

/// The notes file of a branch's worktree: where it is, what came of reading it, and when
/// it was last changed.
#[derive(Debug)]
pub struct NotesFile {
    pub path: String,
    pub read: FileRead,
    pub updated_at: Option<i128>,
}

pub open spec fn no_notes(branch: Seq<char>, path: Option<Seq<char>>, why: Option<Seq<char>>) -> NotesV {
    NotesV {
        branch,
        path,
        exists: false,
        unavailable: why,
        sections: seq![],
        raw: seq![],
        updated_at: None,
    }
}

/// The notes of `branch`; `file` is none where the branch has no worktree.
pub open spec fn notes_of(branch: Seq<char>, file: Option<NotesFile>) -> NotesV {
    match file {
        None => no_notes(
            branch,
            None,
            Some("no worktree for "@ + branch + " — notes live in the worktree"@),
        ),
        Some(f) => match f.read {
            FileRead::Text(raw) => NotesV {
                branch,
                path: Some(f.path@),
                exists: true,
                unavailable: None,
                sections: sections_of(raw@),
                raw: raw@,
                updated_at: f.updated_at,
            },
            FileRead::NotFound { .. } => no_notes(branch, Some(f.path@), None),
            // A file that exists but cannot be read is worth reporting as a state, not an
            // error: the panel says why instead of the app raising a toast.
            FileRead::Failed { message } => no_notes(
                branch,
                None,
                Some(NOTES_FILE@ + ": "@ + message@),
            ),
        },
    }
}

/// Reads and extends the notes. The files themselves are the caller's.
#[derive(Debug)]
pub struct NotesManager {}

impl NotesManager {
    pub fn new() -> (m: Self) {
        NotesManager {  }
    }

    fn missing(branch: &str, path: Option<String>, unavailable: Option<String>) -> (n: Notes)
        ensures
            n@ == no_notes(branch@, opt_view(path), opt_view(unavailable)),
    {
        let n: Notes = Notes {
            branch: text_of(branch),
            path,
            exists: false,
            unavailable,
            sections: Vec::new(),
            raw: String::new(),
            updated_at: None,
        };
        assert(n@ =~= no_notes(branch@, opt_view(path), opt_view(unavailable)));
        n
    }

    /// Read the notes of `branch`. Never fails because the notes are missing.
    pub fn read(&self, branch: &str, file: Option<NotesFile>) -> (n: Notes)
        ensures
            n@ == notes_of(branch@, file),
    {
        match file {
            None => NotesManager::missing(
                branch,
                None,
                Some(
                    text_of("no worktree for ").concat(branch).concat(
                        " — notes live in the worktree",
                    ),
                ),
            ),
            Some(f) => match f.read {
                FileRead::Text(raw) => Notes {
                    branch: text_of(branch),
                    path: Some(f.path),
                    exists: true,
                    unavailable: None,
                    sections: parse_sections(raw.as_str()),
                    raw,
                    updated_at: f.updated_at,
                },
                FileRead::NotFound { .. } => NotesManager::missing(branch, Some(f.path), None),
                FileRead::Failed { message } => NotesManager::missing(
                    branch,
                    None,
                    Some(text_of(NOTES_FILE).concat(": ").concat(message.as_str())),
                ),
            },
        }
    }

    /// Whether the notes of `branch` can be written, and what then announces the change.
    pub fn write(&self, branch: &str, has_worktree: bool) -> (r: Result<Event, MaestroError>)
        ensures
            if has_worktree {
                r matches Ok(e) && e@ == (EventV::NotesUpdated { branch: branch@ })
            } else {
                r matches Err(e) && is_invalid_data(
                    e,
                    "no worktree for "@ + branch@ + " — cannot write "@ + NOTES_FILE@,
                )
            },
    {
        if has_worktree {
            Ok(Event::NotesUpdated { branch: text_of(branch) })
        } else {
            Err(
                MaestroError::InvalidData {
                    message: text_of("no worktree for ").concat(branch).concat(
                        " — cannot write ",
                    ).concat(NOTES_FILE),
                },
            )
        }
    }

    /// The notes with one question-and-answer pair added to their `## Q&A` section, which
    /// is created when it does not exist yet.
    ///
    /// This is the second way notes get written (the first is an implementation session's
    /// last turn): a question the user asked about a specific line, and what the agent
    /// answered, is exactly the context the next agent will want — and it would otherwise
    /// live only in a chat transcript that nobody reads again.
    pub fn append_qa(
        &self,
        branch: &str,
        file: Option<NotesFile>,
        context: &str,
        question: &str,
        answer: &str,
    ) -> (r: Result<String, MaestroError>)
        ensures
            match notes_of(branch@, file).unavailable {
                Some(reason) => r matches Err(e) && is_invalid_data(e, reason),
                None => r matches Ok(text) && text@ == with_qa(
                    notes_of(branch@, file).raw,
                    qa_entry(context@, question@, answer@),
                ),
            },
    {
        let existing: Notes = self.read(branch, file);
        match existing.unavailable {
            Some(reason) => Err(MaestroError::InvalidData { message: reason }),
            None => Ok(
                insert_into_qa(
                    existing.raw.as_str(),
                    format_qa(context, question, answer).as_str(),
                ),
            ),
        }
    }

    /// Notes content for prompt rendering: the file, or `None` when there is nothing yet.
    pub fn current_text(&self, branch: &str, file: Option<NotesFile>) -> (r: Option<String>)
        ensures
            ({
                let n = notes_of(branch@, file);
                opt_view(r) == (if n.exists && !is_blank(n.raw) {
                    Some(n.raw)
                } else {
                    None
                })
            }),
    {
        let notes: Notes = self.read(branch, file);
        if notes.exists && !crate::text::blank(notes.raw.as_str()) {
            Some(notes.raw)
        } else {
            None
        }
    }
}

} // verus!
