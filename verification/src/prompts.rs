//! Prompt template engine.
//!
//! Prompts are data: markdown files with frontmatter in the prompts directory, rendered
//! through `{{var}}` substitution. New prompt type = new file, zero code changes — this
//! module only knows how to parse, render, and reset to the built-in default. Edits take
//! effect on the next render because nothing is cached.
use crate::error::{is_config, is_invalid_data, MaestroError};
use crate::json::{
    is_plain, json_texts_parsed, json_view, lemma_object_keys, object_view, pairs_map,
    parse_json_texts, reads_as, texts_in, write_pretty, Json, JsonV, Member,
};
use crate::sorting::{is_ranking, item_views, sort_ranked, sorted, Ranked};
use crate::table::{
    t_get, t_get_has, t_get_put, t_has, t_map, t_map_put, t_put, t_unique, Table,
};
use crate::text::{
    after_run, ascii_alnum, before, before_run, char_views, chars_of, find_char, find_text,
    is_ascii_alnum, join, join_lines, lemma_before, lemma_next_match, next_char, next_match,
    occurs_at, opt_view, part_of, same_text, split_on, split_text, string_of, text_before, text_of,
    to_unix, trim, trim_end, trimmed, trimmed_end, unix_text, windows_text, views,
    windows_text_reads_back,
};
use vstd::prelude::*;
use vstd::slice::slice_subrange;
use vstd::string::*;
use vstd::utf8::encode_utf8;

verus! {

/// The templates that ship with the application, in the order in which they are installed.
/// Adding a template = adding a file plus one line in this list.
pub open spec fn default_template_names() -> Seq<Seq<char>> {
    seq![
        "line-question"@,
        "commit-message"@,
        "pr-description"@,
        "task-notes"@,
        "review-fix"@,
        "review-reply-style"@,
        "review-workflow-gate"@,
        "red-team"@,
        "review-guide"@,
    ]
}

/// The names of the templates that ship with the application.
pub fn default_names() -> (r: Vec<String>)
    ensures
        views(r@) == default_template_names(),
{
    let mut r: Vec<String> = Vec::new();
    r.push(text_of("line-question"));
    r.push(text_of("commit-message"));
    r.push(text_of("pr-description"));
    r.push(text_of("task-notes"));
    r.push(text_of("review-fix"));
    r.push(text_of("review-reply-style"));
    r.push(text_of("review-workflow-gate"));
    r.push(text_of("red-team"));
    r.push(text_of("review-guide"));
    assert(views(r@) =~= default_template_names());
    r
}

// ---------------------------------------------------------------------------
// Templates
// ---------------------------------------------------------------------------

/// One parsed template: informational frontmatter + a `{{var}}` body.
#[derive(Debug)]
pub struct PromptTemplate {
    pub name: String,
    pub description: Option<String>,
    pub variables: Vec<String>,
    pub body: String,
}

#[verifier::ext_equal]
pub struct TemplateV {
    pub name: Seq<char>,
    pub description: Option<Seq<char>>,
    pub variables: Seq<Seq<char>>,
    pub body: Seq<char>,
}

impl View for PromptTemplate {
    type V = TemplateV;

    open spec fn view(&self) -> TemplateV {
        TemplateV {
            name: self.name@,
            description: opt_view(self.description),
            variables: views(self.variables@),
            body: self.body@,
        }
    }
}

/// What the frontmatter says.
pub struct HeaderV {
    pub description: Option<Seq<char>>,
    pub variables: Seq<Seq<char>>,
}

/// `s` without the square brackets around it.
pub open spec fn unbracketed(s: Seq<char>) -> Seq<char> {
    let a = s.subrange(after_run(s, '[', 0), s.len() as int);
    a.subrange(0, before_run(a, ']', a.len() as int))
}

/// The parts trimmed, without those that are then empty.
pub open spec fn trimmed_parts(parts: Seq<Seq<char>>) -> Seq<Seq<char>>
    decreases parts.len(),
{
    if parts.len() == 0 {
        seq![]
    } else {
        let rest = trimmed_parts(parts.drop_last());
        let last = trim(parts.last());
        if last.len() == 0 {
            rest
        } else {
            rest.push(last)
        }
    }
}

/// A `[a, b, c]` list.
pub open spec fn listed(value: Seq<char>) -> Seq<Seq<char>> {
    trimmed_parts(split_on(unbracketed(value), ','))
}

/// The header after one more line of frontmatter. Keys other than `description` and
/// `variables`, and lines without a colon, say nothing.
pub open spec fn with_line(h: HeaderV, line: Seq<char>) -> HeaderV {
    let colon = next_char(line, ':', 0);
    if colon >= line.len() {
        h
    } else {
        let key = trim(line.subrange(0, colon));
        let value = trim(line.subrange(colon + 1, line.len() as int));
        if key == "description"@ {
            HeaderV { description: Some(value), variables: h.variables }
        } else if key == "variables"@ {
            HeaderV { description: h.description, variables: listed(value) }
        } else {
            h
        }
    }
}

pub open spec fn header_of(lines: Seq<Seq<char>>) -> HeaderV
    decreases lines.len(),
{
    if lines.len() == 0 {
        HeaderV { description: None, variables: seq![] }
    } else {
        with_line(header_of(lines.drop_last()), lines.last())
    }
}

/// The first line from `i` on that is a `---` delimiter.
pub open spec fn closing_line(lines: Seq<Seq<char>>, i: int) -> Option<int>
    decreases lines.len() - i,
{
    if i < 0 || i >= lines.len() {
        None
    } else if lines[i] == "---"@ {
        Some(i)
    } else {
        closing_line(lines, i + 1)
    }
}

/// The lines without a first one that is empty.
pub open spec fn without_blank_first(lines: Seq<Seq<char>>) -> Seq<Seq<char>> {
    if lines.len() > 0 && lines[0].len() == 0 {
        lines.subrange(1, lines.len() as int)
    } else {
        lines
    }
}

/// `raw` as a template: the lines between a first line `---` and the next one are the
/// frontmatter, what follows is the body. Without both delimiters the whole text is the
/// body.
pub open spec fn parsed_template(name: Seq<char>, raw: Seq<char>) -> TemplateV {
    let lines = split_on(unix_text(raw), '\n');
    match closing_line(lines, 1) {
        Some(k) if lines[0] == "---"@ => {
            let h = header_of(lines.subrange(1, k));
            TemplateV {
                name,
                description: h.description,
                variables: h.variables,
                body: join(
                    without_blank_first(lines.subrange(k + 1, lines.len() as int)),
                    seq!['\n'],
                ),
            }
        },
        _ => TemplateV {
            name,
            description: None,
            variables: seq![],
            body: join(lines, seq!['\n']),
        },
    }
}

fn strip_brackets<'a>(s: &'a [char]) -> (r: &'a [char])
    ensures
        r@ == unbracketed(s@),
{
    let mut i: usize = 0;
    while i < s.len() && s[i] == '['
        invariant
            i <= s@.len(),
            after_run(s@, '[', 0) == after_run(s@, '[', i as int),
        decreases s@.len() - i,
    {
        i += 1;
    }
    let a: &[char] = slice_subrange(s, i, s.len());
    let mut j: usize = a.len();
    while j > 0 && a[j - 1] == ']'
        invariant
            j <= a@.len(),
            before_run(a@, ']', a@.len() as int) == before_run(a@, ']', j as int),
        decreases j,
    {
        j -= 1;
    }
    slice_subrange(a, 0, j)
}

fn parse_list(value: &[char]) -> (r: Vec<String>)
    ensures
        views(r@) == listed(value@),
{
    let parts: Vec<Vec<char>> = split_text(strip_brackets(value), ',');
    let ghost ps = char_views(parts@);
    let mut r: Vec<String> = Vec::new();
    let mut i: usize = 0;
    assert(views(r@) =~= trimmed_parts(ps.take(0)));
    while i < parts.len()
        invariant
            i <= parts@.len(),
            ps == char_views(parts@),
            views(r@) == trimmed_parts(ps.take(i as int)),
        decreases parts@.len() - i,
    {
        let ghost done = views(r@);
        assert(ps.take(i + 1).drop_last() =~= ps.take(i as int));
        assert(ps.take(i + 1).last() == parts@[i as int]@);
        let t: &[char] = trimmed(parts[i].as_slice());
        if t.len() > 0 {
            r.push(string_of(t));
            assert(views(r@) =~= done.push(t@));
        }
        i += 1;
    }
    assert(ps.take(i as int) =~= ps);
    r
}

fn is_delimiter(line: &Vec<char>) -> (b: bool)
    ensures
        b == (line@ == "---"@),
{
    proof {
        reveal_strlit("---");
    }
    let b: bool = line.len() == 3 && line[0] == '-' && line[1] == '-' && line[2] == '-';
    if b {
        assert(line@ =~= "---"@);
    }
    b
}

/// Split `---\n ... \n---` frontmatter from the body. `description:` is taken verbatim;
/// `variables:` accepts a `[a, b, c]` list. Malformed or absent frontmatter just means
/// an empty header — the raw text becomes the body.
pub fn parse_template(name: &str, raw: &str) -> (t: PromptTemplate)
    ensures
        t@ == parsed_template(name@, raw@),
{
    let r: Vec<char> = chars_of(raw);
    let normalized: Vec<char> = to_unix(r.as_slice());
    let mut lines: Vec<Vec<char>> = split_text(normalized.as_slice(), '\n');
    let ghost ls = char_views(lines@);
    let mut description: Option<String> = None;
    let mut variables: Vec<String> = Vec::new();
    // A template that opens `---` but never closes it is malformed; the whole file
    // becomes the body rather than vanishing.
    let mut k: usize = 1;
    while k < lines.len() && !is_delimiter(&lines[k])
        invariant
            1 <= k,
            lines@.len() >= 1 ==> k <= lines@.len(),
            ls == char_views(lines@),
            closing_line(ls, 1) == closing_line(ls, k as int),
        decreases lines@.len() - k,
    {
        assert(ls[k as int] == lines@[k as int]@);
        k += 1;
    }
    let mut start: usize = 0;
    assert(views(variables@) =~= Seq::<Seq<char>>::empty());
    if k < lines.len() && is_delimiter(&lines[0]) {
        assert(ls[0] == lines@[0]@ && ls[k as int] == lines@[k as int]@);
        let ghost head = ls.subrange(1, k as int);
        let mut i: usize = 1;
        assert(head.take(0) =~= seq![]);
        while i < k
            invariant
                1 <= i <= k,
                k < lines@.len(),
                ls == char_views(lines@),
                head == ls.subrange(1, k as int),
                header_of(head.take(i - 1)).description == opt_view(description),
                header_of(head.take(i - 1)).variables == views(variables@),
            decreases k - i,
        {
            let ghost h = header_of(head.take(i - 1));
            assert(head.take(i as int).drop_last() =~= head.take(i - 1));
            assert(head.take(i as int).last() == lines@[i as int]@);
            let line: &[char] = lines[i].as_slice();
            let colon: usize = find_char(line, ':', 0);
            if colon < line.len() {
                let key: String = string_of(trimmed(slice_subrange(line, 0, colon)));
                let value: &[char] = trimmed(slice_subrange(line, colon + 1, line.len()));
                if same_text(key.as_str(), "description") {
                    description = Some(string_of(value));
                } else if same_text(key.as_str(), "variables") {
                    variables = parse_list(value);
                }
            }
            i += 1;
        }
        assert(head.take(k - 1) =~= head);
        start = k + 1;
    } else {
        if k < lines.len() {
            assert(ls[0] == lines@[0]@ && ls[k as int] == lines@[k as int]@);
        }
    }
    let ghost body = ls.subrange(start as int, ls.len() as int);
    // Drop a single leading blank line right after the closing `---`.
    let mut rest: Vec<Vec<char>> = lines.split_off(start);
    assert(char_views(rest@) =~= body);
    if start > 0 && rest.len() > 0 && rest[0].len() == 0 {
        assert(body[0] == rest@[0]@);
        rest.remove(0);
        assert(char_views(rest@) =~= without_blank_first(body));
    } else if rest.len() > 0 {
        assert(body[0] == rest@[0]@);
    }
    assert(start == 0 ==> body =~= ls);
    let joined: Vec<char> = join_lines(&rest);
    PromptTemplate { name: text_of(name), description, variables, body: string_of(&joined) }
}

// ---------------------------------------------------------------------------
// Rendering
// ---------------------------------------------------------------------------

/// What stands for the placeholder `{{inner}}`: the variable's value, or the placeholder
/// itself where no variable has that name.
pub open spec fn filled(inner: Seq<char>, vars: Seq<(Seq<char>, Seq<char>)>) -> Seq<char> {
    match t_get(vars, trim(inner)) {
        Some(value) => value,
        None => seq!['{', '{'] + inner + seq!['}', '}'],
    }
}

/// `s[i..]` with every placeholder filled in.
pub open spec fn rendered_from(
    s: Seq<char>,
    vars: Seq<(Seq<char>, Seq<char>)>,
    i: int,
) -> Seq<char>
    decreases s.len() - i,
{
    if i < 0 || i > s.len() {
        seq![]
    } else {
        match next_match(s, seq!['{', '{'], i) {
            Some(open) => if open < i || open + 2 > s.len() {
                s.subrange(i, s.len() as int)
            } else {
                match next_match(s, seq!['}', '}'], open + 2) {
                    Some(close) => if close < open + 2 || close + 2 > s.len() {
                        s.subrange(i, s.len() as int)
                    } else {
                        s.subrange(i, open) + filled(s.subrange(open + 2, close), vars)
                            + rendered_from(s, vars, close + 2)
                    },
                    None => s.subrange(i, s.len() as int),
                }
            },
            None => s.subrange(i, s.len() as int),
        }
    }
}

/// `body` with every placeholder filled in.
pub open spec fn rendered(body: Seq<char>, vars: Seq<(Seq<char>, Seq<char>)>) -> Seq<char> {
    rendered_from(body, vars, 0)
}

/// Substitute every `{{key}}` found in `vars`; unknown placeholders pass through as-is.
pub fn render_body(body: &str, vars: &Table<String>) -> (r: String)
    requires
        vars.wf(),
    ensures
        r@ == rendered(body@, vars@),
{
    let s: Vec<char> = chars_of(body);
    let open_mark: Vec<char> = vec!['{', '{'];
    let close_mark: Vec<char> = vec!['}', '}'];
    assert(open_mark@ =~= seq!['{', '{']);
    assert(close_mark@ =~= seq!['}', '}']);
    let mut out: String = String::new();
    let mut i: usize = 0;
    let n: usize = s.len();
    assert(out@ + rendered_from(s@, vars@, 0) =~= rendered(body@, vars@));
    loop
        invariant
            n == s@.len(),
            i <= s@.len(),
            s@ == body@,
            vars.wf(),
            open_mark@ == seq!['{', '{'],
            close_mark@ == seq!['}', '}'],
            out@ + rendered_from(s@, vars@, i as int) == rendered(body@, vars@),
        decreases s@.len() - i,
    {
        proof {
            lemma_next_match(s@, open_mark@, i as int);
        }
        let open: usize = match find_text(s.as_slice(), open_mark.as_slice(), i) {
            Some(p) => p,
            None => {
                out.append(part_of(s.as_slice(), i, s.len()).as_str());
                return out;
            },
        };
        assert(occurs_at(s@, open_mark@, open as int));
        assert(open + 2 <= n);
        proof {
            lemma_next_match(s@, close_mark@, open + 2);
        }
        let close: usize = match find_text(s.as_slice(), close_mark.as_slice(), open + 2) {
            Some(p) => p,
            None => {
                out.append(part_of(s.as_slice(), i, s.len()).as_str());
                return out;
            },
        };
        assert(occurs_at(s@, close_mark@, close as int));
        assert(close + 2 <= n);
        let ghost before = out@;
        let ghost rest = rendered_from(s@, vars@, i as int);
        let ghost tail = rendered_from(s@, vars@, close + 2);
        let ghost lead = s@.subrange(i as int, open as int);
        let ghost inner = s@.subrange(open + 2, close as int);
        assert(rest == lead + filled(inner, vars@) + tail);
        out.append(part_of(s.as_slice(), i, open).as_str());
        let key: String = string_of(trimmed(slice_subrange(s.as_slice(), open + 2, close)));
        match vars.get(key.as_str()) {
            Some(value) => {
                out.append(value.as_str());
            },
            None => {
                out.append(part_of(s.as_slice(), open, close + 2).as_str());
                assert(s@.subrange(open as int, close + 2) =~= filled(inner, vars@));
            },
        }
        assert(out@ =~= before + lead + filled(inner, vars@));
        assert(out@ + tail =~= before + rest);
        i = close + 2;
    }
}

/// Rendering without variables changes nothing: what no variable fills in passes through
/// verbatim, so a misconfigured template is visible, not silently dropped.
pub proof fn unknown_placeholders_pass_through(s: Seq<char>, i: int)
    requires
        0 <= i <= s.len(),
    ensures
        rendered_from(s, seq![], i) == s.subrange(i, s.len() as int),
    decreases s.len() - i,
{
    let none = Seq::<(Seq<char>, Seq<char>)>::empty();
    lemma_next_match(s, seq!['{', '{'], i);
    match next_match(s, seq!['{', '{'], i) {
        Some(open) => {
            lemma_next_match(s, seq!['}', '}'], open + 2);
            match next_match(s, seq!['}', '}'], open + 2) {
                Some(close) => {
                    unknown_placeholders_pass_through(s, close + 2);
                    let inner = s.subrange(open + 2, close);
                    assert(filled(inner, none) == seq!['{', '{'] + inner + seq!['}', '}']);
                    assert(s.subrange(open, close + 2) =~= filled(inner, none));
                    assert(rendered_from(s, none, i) =~= s.subrange(i, s.len() as int));
                },
                None => {},
            }
        },
        None => {},
    }
}

/// Text without an opening `{{` is rendered as it is, whatever the variables.
pub proof fn text_without_placeholders_is_verbatim(
    s: Seq<char>,
    vars: Seq<(Seq<char>, Seq<char>)>,
)
    requires
        next_match(s, seq!['{', '{'], 0) is None,
    ensures
        rendered(s, vars) == s,
{
    assert(s.subrange(0, s.len() as int) =~= s);
}

/// A labelled sample for each of the variables.
pub open spec fn samples(variables: Seq<Seq<char>>) -> Seq<(Seq<char>, Seq<char>)>
    decreases variables.len(),
{
    if variables.len() == 0 {
        seq![]
    } else {
        t_put(
            samples(variables.drop_last()),
            variables.last(),
            "[sample "@ + variables.last() + "]"@,
        )
    }
}

// ---------------------------------------------------------------------------
// Which default a file was installed from
// ---------------------------------------------------------------------------

/// Template contents without line-ending and trailing-whitespace noise.
pub open spec fn normal_form(s: Seq<char>) -> Seq<char> {
    trim_end(unix_text(s))
}

/// Compare template contents ignoring line-ending and trailing-whitespace noise, so a
/// file checked out with CRLF is not reported as edited.
pub fn normalize(text: &str) -> (r: String)
    ensures
        r@ == normal_form(text@),
{
    let s: Vec<char> = chars_of(text);
    let u: Vec<char> = to_unix(s.as_slice());
    string_of(trimmed_end(u.as_slice()))
}

/// A checkout with Windows line endings is no edit.
pub proof fn crlf_checkout_is_no_edit(text: Seq<char>)
    requires
        !text.contains('\r'),
    ensures
        normal_form(windows_text(text)) == normal_form(text),
{
    windows_text_reads_back(text);
}

/// One step of FNV-1a.
pub open spec fn fnv_step(hash: u64, byte: u8) -> u64 {
    (hash ^ (byte as u64)).wrapping_mul(0x0000_0100_0000_01b3)
}

/// The 64-bit FNV-1a hash.
pub open spec fn fnv(bytes: Seq<u8>) -> u64
    decreases bytes.len(),
{
    if bytes.len() == 0 {
        0xcbf2_9ce4_8422_2325
    } else {
        fnv_step(fnv(bytes.drop_last()), bytes.last())
    }
}

pub open spec fn hex_digit(d: nat) -> char {
    if d == 10 {
        'a'
    } else if d == 11 {
        'b'
    } else if d == 12 {
        'c'
    } else if d == 13 {
        'd'
    } else if d == 14 {
        'e'
    } else if d == 15 {
        'f'
    } else {
        crate::text::digit(d)
    }
}

/// The last `width` hexadecimal digits of `n`.
pub open spec fn hexadecimal(n: nat, width: nat) -> Seq<char>
    decreases width,
{
    if width == 0 {
        seq![]
    } else {
        hexadecimal(n / 16, (width - 1) as nat).push(hex_digit(n % 16))
    }
}

fn hex_char(d: u64) -> (c: char)
    requires
        d < 16,
    ensures
        c == hex_digit(d as nat),
{
    match d {
        10 => 'a',
        11 => 'b',
        12 => 'c',
        13 => 'd',
        14 => 'e',
        15 => 'f',
        _ => crate::text::digit_char(d),
    }
}

fn hex_text(n: u64, width: u64) -> (s: String)
    ensures
        s@ == hexadecimal(n as nat, width as nat),
    decreases width,
{
    if width == 0 {
        let s: String = String::new();
        assert(s@ =~= seq![]);
        s
    } else {
        let mut s: String = hex_text(n / 16, width - 1);
        s.push(hex_char(n % 16));
        s
    }
}

/// The hash of a text, in sixteen hexadecimal digits.
pub open spec fn fingerprint(text: Seq<char>) -> Seq<char> {
    hexadecimal(fnv(encode_utf8(text)) as nat, 16)
}

/// FNV-1a over the text, as hex. Deliberately hand-rolled: the hash is persisted across
/// app versions, so it must never change algorithm.
pub fn fnv1a(text: &str) -> (r: String)
    ensures
        r@ == fingerprint(text@),
{
    let bytes: &[u8] = text.as_bytes();
    let mut hash: u64 = 0xcbf2_9ce4_8422_2325;
    let mut i: usize = 0;
    assert(bytes@.take(0) =~= seq![]);
    while i < bytes.len()
        invariant
            i <= bytes@.len(),
            hash == fnv(bytes@.take(i as int)),
        decreases bytes@.len() - i,
    {
        assert(bytes@.take(i + 1).drop_last() =~= bytes@.take(i as int));
        hash = (hash ^ (bytes[i] as u64)).wrapping_mul(0x0000_0100_0000_01b3);
        i += 1;
    }
    assert(bytes@.take(i as int) =~= bytes@);
    hex_text(hash, 16)
}

// ---------------------------------------------------------------------------
// Template files
// ---------------------------------------------------------------------------

/// A template as the editor sees it: raw markdown plus whether it still matches the
/// built-in default (so the UI can enable "reset" only when it would change something).
#[derive(Debug)]
pub struct PromptFile {
    pub name: String,
    pub description: Option<String>,
    pub variables: Vec<String>,
    /// Full file contents, frontmatter included — what the editor shows.
    pub content: String,
    /// True when a built-in default exists for this name.
    pub has_default: bool,
    /// True when the file differs from that default (i.e. the user edited it).
    pub modified: bool,
    /// True when the user edited this template AND the built-in default has
    /// changed since it was installed — resetting would pick up the newer
    /// default, discarding the edit. Unedited templates never show this: they
    /// are auto-updated at startup instead.
    pub update_available: bool,
}

#[verifier::ext_equal]
pub struct PromptFileV {
    pub name: Seq<char>,
    pub description: Option<Seq<char>>,
    pub variables: Seq<Seq<char>>,
    pub content: Seq<char>,
    pub has_default: bool,
    pub modified: bool,
    pub update_available: bool,
}

impl View for PromptFile {
    type V = PromptFileV;

    open spec fn view(&self) -> PromptFileV {
        PromptFileV {
            name: self.name@,
            description: opt_view(self.description),
            variables: views(self.variables@),
            content: self.content@,
            has_default: self.has_default,
            modified: self.modified,
            update_available: self.update_available,
        }
    }
}

impl Ranked for PromptFile {
    open spec fn in_order(a: PromptFileV, b: PromptFileV) -> bool {
        !before(b.name, a.name)
    }

    fn may_precede(&self, other: &Self) -> bool {
        !text_before(other.name.as_str(), self.name.as_str())
    }
}

/// What came of reading a template's file.
#[derive(Debug)]
pub enum FileRead {
    Text(String),
    /// No such file; `path` is where it was looked for.
    NotFound { path: String },
    /// Permission denied, invalid UTF-8, ...
    Failed { message: String },
}

/// A template file and what came of reading it.
#[derive(Debug)]
pub struct ListedFile {
    pub name: String,
    pub read: FileRead,
}

/// A file to be written.
#[derive(Debug)]
pub struct PromptWrite {
    pub name: String,
    pub content: String,
}

pub open spec fn write_views(v: Seq<PromptWrite>) -> Seq<(Seq<char>, Seq<char>)> {
    v.map_values(|w: PromptWrite| (w.name@, w.content@))
}

/// What bringing the installed templates up to date takes.
#[derive(Debug)]
pub struct SyncPlan {
    /// The files to write, in order. The first that cannot be written ends the sync.
    pub writes: Vec<PromptWrite>,
    /// The record to save afterwards, where it changed.
    pub meta: Option<Table<String>>,
}

/// What the editor is told about a template. `installed` is the fingerprint of the default
/// that it was installed from.
pub open spec fn prompt_file(
    default: Option<Seq<char>>,
    installed: Option<Seq<char>>,
    name: Seq<char>,
    content: Seq<char>,
) -> PromptFileV {
    let t = parsed_template(name, content);
    let modified = default matches Some(d) && normal_form(d) != normal_form(content);
    PromptFileV {
        name,
        description: t.description,
        variables: t.variables,
        content,
        has_default: default is Some,
        modified,
        update_available: modified && match (installed, default) {
            (Some(h), Some(d)) => h != fingerprint(normal_form(d)),
            _ => false,
        },
    }
}

/// Whether a template may have this name: one that cannot leave the prompts directory.
pub open spec fn valid_name(name: Seq<char>) -> bool {
    name.len() > 0 && forall|i: int|
        0 <= i < name.len() ==> is_ascii_alnum(#[trigger] name[i]) || name[i] == '-' || name[i]
            == '_'
}

/// Whether every template of a table may have its name.
pub open spec fn valid_names(defaults: Seq<(Seq<char>, Seq<char>)>) -> bool {
    forall|i: int| 0 <= i < defaults.len() ==> valid_name((#[trigger] defaults[i]).0)
}

pub open spec fn name_error(name: Seq<char>) -> Seq<char> {
    "invalid prompt template name: "@ + name
}

/// The error of a read that gave no text.
pub open spec fn is_read_error(e: MaestroError, name: Seq<char>, read: FileRead) -> bool {
    match read {
        FileRead::Text(_) => false,
        FileRead::NotFound { path } => is_config(
            e,
            "prompt template not found: "@ + name + " ("@ + path@ + ")"@,
        ),
        FileRead::Failed { message } => e matches MaestroError::Io { message: m } && m@
            == message@,
    }
}

/// What a default template's file needs.
pub enum SyncStep {
    /// Nothing.
    Leave,
    /// Write the default and record it.
    Install,
    /// Record the default: the file already holds it.
    Adopt,
}

/// What the file of the template `default` needs, given the fingerprint of the default it
/// was installed from. A file that still matches its recorded default was never touched by
/// the user, so a newer shipped default may replace it. Anything else is the user's.
pub open spec fn sync_step(
    default: Seq<char>,
    file: FileRead,
    installed: Option<Seq<char>>,
) -> SyncStep {
    let shipped = fingerprint(normal_form(default));
    match file {
        FileRead::NotFound { .. } => SyncStep::Install,
        FileRead::Failed { .. } => SyncStep::Leave,
        FileRead::Text(raw) => {
            let held = fingerprint(normal_form(raw@));
            match installed {
                Some(h) => if h == held && h != shipped {
                    SyncStep::Install
                } else {
                    SyncStep::Leave
                },
                None => if held == shipped {
                    SyncStep::Adopt
                } else {
                    SyncStep::Leave
                },
            }
        },
    }
}

pub struct SyncV {
    pub writes: Seq<(Seq<char>, Seq<char>)>,
    pub meta: Seq<(Seq<char>, Seq<char>)>,
    pub changed: bool,
}

/// The sync of all the default templates, one after the other.
pub open spec fn synced(
    defaults: Seq<(Seq<char>, Seq<char>)>,
    files: Seq<FileRead>,
    meta: Seq<(Seq<char>, Seq<char>)>,
) -> SyncV
    decreases defaults.len(),
{
    if defaults.len() == 0 || defaults.len() != files.len() {
        SyncV { writes: seq![], meta, changed: false }
    } else {
        let s = synced(defaults.drop_last(), files.drop_last(), meta);
        let (name, default) = defaults.last();
        let recorded = t_put(s.meta, name, fingerprint(normal_form(default)));
        match sync_step(default, files.last(), t_get(s.meta, name)) {
            SyncStep::Leave => s,
            SyncStep::Install => SyncV {
                writes: s.writes.push((name, default)),
                meta: recorded,
                changed: true,
            },
            SyncStep::Adopt => SyncV { writes: s.writes, meta: recorded, changed: true },
        }
    }
}

/// A file that the user edited is left alone: whatever was recorded for it, its contents
/// are not those of the default it was installed from.
pub proof fn edits_are_never_overwritten(
    default: Seq<char>,
    raw: String,
    installed: Option<Seq<char>>,
)
    requires
        installed != Some(fingerprint(normal_form(raw@))),
    ensures
        !(sync_step(default, FileRead::Text(raw), installed) is Install),
{
}

/// A file that still holds the default it was installed from follows the shipped default.
pub proof fn unedited_templates_follow_the_default(default: Seq<char>, raw: String)
    requires
        fingerprint(normal_form(raw@)) != fingerprint(normal_form(default)),
    ensures
        sync_step(default, FileRead::Text(raw), Some(fingerprint(normal_form(raw@)))) is Install,
{
}

proof fn lemma_default_name(defaults: Seq<(Seq<char>, Seq<char>)>, name: Seq<char>)
    requires
        valid_names(defaults),
        t_get(defaults, name) is Some,
    ensures
        valid_name(name),
{
    t_get_has(defaults, name);
    let i = choose|i: int| 0 <= i < defaults.len() && (#[trigger] defaults[i]).0 == name;
    assert(valid_name(defaults[i].0));
}

/// After a reset a template holds its default and neither counts as modified nor as behind
/// it, in the answer and when it is read again; the name of a default is never refused, and
/// the next sync leaves the file alone.
pub proof fn reset_clears_the_flags(
    defaults: Seq<(Seq<char>, Seq<char>)>,
    meta: Seq<(Seq<char>, Seq<char>)>,
    name: Seq<char>,
    written: String,
)
    requires
        valid_names(defaults),
        t_unique(meta),
        t_get(defaults, name) == Some(written@),
    ensures
        valid_name(name),
        ({
            let d = written@;
            let f = prompt_file(Some(d), t_get(meta, name), name, d);
            let after = t_put(meta, name, fingerprint(normal_form(d)));
            let again = prompt_file(t_get(defaults, name), t_get(after, name), name, d);
            &&& f == again
            &&& f.content == d
            &&& f.has_default
            &&& !f.modified
            &&& !f.update_available
            &&& sync_step(d, FileRead::Text(written), t_get(after, name)) is Leave
        }),
{
    lemma_default_name(defaults, name);
    t_get_put(meta, name, fingerprint(normal_form(written@)), name);
}

/// Templates are listed by name, in a total order.
pub proof fn prompt_files_are_ranked()
    ensures
        is_ranking::<PromptFile>(),
{
    assert forall|a: PromptFileV, b: PromptFileV| #[trigger]
        PromptFile::in_order(a, b) || PromptFile::in_order(b, a) by {
        lemma_before(a.name, b.name, b.name);
    }
    assert forall|a: PromptFileV, b: PromptFileV, c: PromptFileV| #[trigger]
        PromptFile::in_order(a, b) && #[trigger] PromptFile::in_order(b, c) implies
        PromptFile::in_order(a, c) by {
        lemma_before(a.name, b.name, c.name);
    }
}

/// The files that could be read, as the editor sees them.
pub open spec fn readable(
    defaults: Seq<(Seq<char>, Seq<char>)>,
    meta: Seq<(Seq<char>, Seq<char>)>,
    files: Seq<ListedFile>,
) -> Seq<PromptFileV>
    decreases files.len(),
{
    if files.len() == 0 {
        seq![]
    } else {
        let rest = readable(defaults, meta, files.drop_last());
        let f = files.last();
        match f.read {
            FileRead::Text(raw) => rest.push(
                prompt_file(t_get(defaults, f.name@), t_get(meta, f.name@), f.name@, raw@),
            ),
            _ => rest,
        }
    }
}

// ---------------------------------------------------------------------------
// The record of installed defaults
// ---------------------------------------------------------------------------

pub open spec fn as_texts(m: Map<Seq<char>, Seq<char>>) -> Map<Seq<char>, JsonV> {
    Map::new(|k: Seq<char>| m.dom().contains(k), |k: Seq<char>| JsonV::Text(m[k]))
}

/// The record that a file's contents hold. A file that is missing or no object of texts
/// holds none.
pub open spec fn record_in(raw: Option<Seq<char>>) -> Map<Seq<char>, Seq<char>> {
    match raw {
        Some(text) => match json_texts_parsed(text) {
            Ok(m) => m,
            Err(_) => Map::empty(),
        },
        None => Map::empty(),
    }
}

/// Read the record of installed defaults; `raw` is the contents of its file, where it has
/// any.
pub fn load_meta(raw: Option<&str>) -> (t: Table<String>)
    ensures
        t.wf(),
        t_map(t@) == record_in(
            match raw {
                Some(s) => Some(s@),
                None => None,
            },
        ),
{
    let pairs: Vec<(String, String)> = match raw {
        Some(text) => match parse_json_texts(text) {
            Ok(pairs) => pairs,
            Err(_) => Vec::new(),
        },
        None => Vec::new(),
    };
    record_of(&pairs)
}

/// The record that names and fingerprints make.
pub fn record_of(pairs: &Vec<(String, String)>) -> (t: Table<String>)
    ensures
        t.wf(),
        t_map(t@) == pairs_map(pairs@),
{
    let mut t: Table<String> = Table::new();
    let mut i: usize = 0;
    assert(t_map(t@) =~= pairs_map(pairs@.take(0)));
    while i < pairs.len()
        invariant
            i <= pairs@.len(),
            t.wf(),
            t_map(t@) == pairs_map(pairs@.take(i as int)),
        decreases pairs@.len() - i,
    {
        proof {
            assert(pairs@.take(i + 1).drop_last() =~= pairs@.take(i as int));
            t_map_put(t@, pairs@[i as int].0@, pairs@[i as int].1@);
        }
        t.insert(pairs[i].0.as_str(), text_of(pairs[i].1.as_str()));
        i += 1;
    }
    assert(pairs@.take(i as int) =~= pairs@);
    t
}

/// The contents of the record's file. Reading them gives the record back.
pub fn save_meta(meta: &Table<String>) -> (r: String)
    requires
        meta.wf(),
    ensures
        reads_as(r@, JsonV::Object(as_texts(t_map(meta@)))),
        record_in(Some(r@)) == t_map(meta@),
{
    let mut members: Vec<Member> = Vec::new();
    let mut i: usize = 0;
    assert(object_view(members@) =~= as_texts(t_map(meta@.take(0))));
    while i < meta.entries.len()
        invariant
            i <= meta.entries@.len(),
            meta.wf(),
            object_view(members@) == as_texts(t_map(meta@.take(i as int))),
        decreases meta.entries@.len() - i,
    {
        let ghost before = members@;
        let ghost done = meta@.take(i as int);
        let ghost key = meta.entries@[i as int].key@;
        let ghost value = meta.entries@[i as int].value@;
        members.push(
            Member {
                key: text_of(meta.entries[i].key.as_str()),
                value: Json::Text(text_of(meta.entries[i].value.as_str())),
            },
        );
        proof {
            assert(members@.drop_last() =~= before);
            assert(json_view(members@.last().value) == JsonV::Text(value));
            assert(meta@[i as int] == (key, value));
            if t_has(done, key) {
                let k = choose|k: int| 0 <= k < done.len() && (#[trigger] done[k]).0 == key;
                assert(meta@[k].0 == meta@[i as int].0);
            }
            assert(t_put(done, key, value) =~= meta@.take(i + 1));
            assert forall|a: int, b: int| 0 <= a < b < done.len() implies (#[trigger] done[a]).0
                != (#[trigger] done[b]).0 by {
                assert(meta@[a].0 != meta@[b].0);
            }
            t_map_put(done, key, value);
            assert(object_view(members@) =~= as_texts(t_map(meta@.take(i + 1))));
        }
        i += 1;
    }
    assert(meta@.take(i as int) =~= meta@);
    let ghost m = object_view(members@);
    let j: Json = Json::Object(members);
    proof {
        lemma_object_keys(members@, seq![]);
        assert(j@ == JsonV::Object(m));
        assert forall|k: Seq<char>| m.dom().contains(k) implies is_plain(#[trigger] m[k], 7) by {
            assert(m[k] is Text);
        }
        assert(is_plain(j@, 8));
        assert(texts_in(m) =~= t_map(meta@));
    }
    write_pretty(&j)
}

fn is_valid_name(name: &str) -> (b: bool)
    ensures
        b == valid_name(name@),
{
    let s: Vec<char> = chars_of(name);
    let mut valid: bool = s.len() > 0;
    let mut i: usize = 0;
    while i < s.len() && valid
        invariant
            i <= s@.len(),
            s@ == name@,
            valid ==> name@.len() > 0 && forall|k: int|
                0 <= k < i ==> is_ascii_alnum(#[trigger] name@[k]) || name@[k] == '-'
                    || name@[k] == '_',
            !valid ==> !valid_name(name@),
        decreases s@.len() - i,
    {
        assert(name@[i as int] == s@[i as int]);
        valid = ascii_alnum(s[i]) || s[i] == '-' || s[i] == '_';
        i += 1;
    }
    valid
}

// ---------------------------------------------------------------------------
// The manager
// ---------------------------------------------------------------------------

/// Renders and keeps markdown templates. Reading and writing the files is left to the
/// caller: it hands in what it read and is told what to write.
#[derive(Debug)]
pub struct PromptManager {
    /// The built-in defaults, by name.
    pub defaults: Table<String>,
}

impl View for PromptManager {
    type V = Seq<(Seq<char>, Seq<char>)>;

    open spec fn view(&self) -> Seq<(Seq<char>, Seq<char>)> {
        self.defaults@
    }
}

impl PromptManager {
    pub open spec fn wf(self) -> bool {
        self.defaults.wf() && valid_names(self.defaults@)
    }

    /// A manager of templates with these built-in defaults, whose names have to be valid (see
    /// [`PromptManager::named_well`]).
    pub fn new(defaults: Table<String>) -> (m: Self)
        requires
            defaults.wf(),
            valid_names(defaults@),
        ensures
            m.wf(),
            m@ == defaults@,
    {
        PromptManager { defaults }
    }

    /// Install missing defaults and update stale-but-unedited ones. `files` is what came
    /// of reading the file of each default, in their order; `meta` records which default
    /// each template was installed from.
    pub fn sync_defaults(&self, files: &Vec<FileRead>, meta: Table<String>) -> (p: SyncPlan)
        requires
            self.wf(),
            meta.wf(),
            files@.len() == self@.len(),
        ensures
            ({
                let s = synced(self@, files@, meta@);
                &&& write_views(p.writes@) == s.writes
                &&& match p.meta {
                    Some(t) => s.changed && t.wf() && t@ == s.meta,
                    None => !s.changed,
                }
            }),
    {
        let ghost all = self@;
        let ghost start = meta@;
        let mut meta: Table<String> = meta;
        let mut changed: bool = false;
        let mut writes: Vec<PromptWrite> = Vec::new();
        let mut i: usize = 0;
        assert(write_views(writes@) =~= seq![]);
        while i < files.len()
            invariant
                i <= files@.len(),
                self.wf(),
                meta.wf(),
                all == self@,
                files@.len() == all.len(),
                ({
                    let s = synced(all.take(i as int), files@.take(i as int), start);
                    &&& write_views(writes@) == s.writes
                    &&& meta@ == s.meta
                    &&& changed == s.changed
                }),
            decreases files@.len() - i,
        {
            assert(all.take(i + 1).drop_last() =~= all.take(i as int));
            assert(files@.take(i + 1).drop_last() =~= files@.take(i as int));
            let name: &str = self.defaults.entries[i].key.as_str();
            let default: &str = self.defaults.entries[i].value.as_str();
            assert(all.take(i + 1).last() == (name@, default@));
            let ghost was = write_views(writes@);
            let default_hash: String = fnv1a(normalize(default).as_str());
            match &files[i] {
                FileRead::NotFound { .. } => {
                    writes.push(PromptWrite { name: text_of(name), content: text_of(default) });
                    assert(write_views(writes@) =~= was.push((name@, default@)));
                    meta.insert(name, default_hash);
                    changed = true;
                },
                FileRead::Failed { .. } => {},
                FileRead::Text(raw) => {
                    let file_hash: String = fnv1a(normalize(raw.as_str()).as_str());
                    let update: Option<bool> = match meta.get(name) {
                        // Never edited (still the default it was installed from) and the
                        // shipped default moved → update.
                        Some(installed) => if same_text(installed.as_str(), file_hash.as_str())
                            && !same_text(installed.as_str(), default_hash.as_str()) {
                            Some(true)
                        } else {
                            None
                        },
                        // Installed before anything was recorded: adopt the file as
                        // "unedited" only when it already equals the current default;
                        // anything else could be a user edit and stays untouched.
                        None => if same_text(file_hash.as_str(), default_hash.as_str()) {
                            Some(false)
                        } else {
                            None
                        },
                    };
                    match update {
                        Some(write) => {
                            if write {
                                writes.push(
                                    PromptWrite { name: text_of(name), content: text_of(default) },
                                );
                                assert(write_views(writes@) =~= was.push((name@, default@)));
                            }
                            meta.insert(name, default_hash);
                            changed = true;
                        },
                        None => {},
                    }
                },
            }
            i += 1;
        }
        assert(all.take(i as int) =~= all);
        assert(files@.take(i as int) =~= files@);
        SyncPlan {
            writes,
            meta: if changed {
                Some(meta)
            } else {
                None
            },
        }
    }

    /// Built-in default for `name`, if there is one.
    pub fn default_for(&self, name: &str) -> (r: Option<&str>)
        requires
            self.wf(),
        ensures
            match r {
                Some(d) => t_get(self@, name@) == Some(d@),
                None => t_get(self@, name@) is None,
            },
    {
        match self.defaults.get(name) {
            Some(d) => Some(d.as_str()),
            None => None,
        }
    }

    /// Every template in the prompts dir, sorted by name. Files that fail to read are
    /// skipped rather than failing the whole listing.
    pub fn list(&self, files: &Vec<ListedFile>, meta: &Table<String>) -> (r: Vec<PromptFile>)
        requires
            self.wf(),
            meta.wf(),
        ensures
            item_views(r@) == sorted::<PromptFile>(readable(self@, meta@, files@)),
    {
        let mut r: Vec<PromptFile> = Vec::new();
        let mut i: usize = 0;
        assert(item_views(r@) =~= readable(self@, meta@, files@.take(0)));
        while i < files.len()
            invariant
                i <= files@.len(),
                self.wf(),
                meta.wf(),
                item_views(r@) == readable(self@, meta@, files@.take(i as int)),
            decreases files@.len() - i,
        {
            assert(files@.take(i + 1).drop_last() =~= files@.take(i as int));
            let ghost was = item_views(r@);
            match &files[i].read {
                FileRead::Text(raw) => {
                    let f: PromptFile = self.to_prompt_file(
                        files[i].name.as_str(),
                        raw.as_str(),
                        meta,
                    );
                    let ghost fv = f@;
                    r.push(f);
                    assert(item_views(r@) =~= was.push(fv));
                },
                _ => {},
            }
            i += 1;
        }
        assert(files@.take(i as int) =~= files@);
        sort_ranked(r)
    }

    /// One template, for the editor; `read` is what came of reading its file.
    pub fn read(&self, name: &str, read: FileRead, meta: &Table<String>) -> (r: Result<
        PromptFile,
        MaestroError,
    >)
        requires
            self.wf(),
            meta.wf(),
        ensures
            if !valid_name(name@) {
                r matches Err(e) && is_invalid_data(e, name_error(name@))
            } else {
                match read {
                    FileRead::Text(raw) => r matches Ok(f) && f@ == prompt_file(
                        t_get(self@, name@),
                        t_get(meta@, name@),
                        name@,
                        raw@,
                    ),
                    _ => r matches Err(e) && is_read_error(e, name@, read),
                }
            },
    {
        match self.read_raw(name, read) {
            Ok(content) => Ok(self.to_prompt_file(name, content.as_str(), meta)),
            Err(e) => Err(e),
        }
    }

    /// What overwriting `name` with `content` makes of it. The next render picks it up —
    /// no restart, no cache to invalidate. A name that is refused must not be written.
    pub fn save(&self, name: &str, content: &str, meta: &Table<String>) -> (r: Result<
        PromptFile,
        MaestroError,
    >)
        requires
            self.wf(),
            meta.wf(),
        ensures
            if valid_name(name@) {
                r matches Ok(f) && f@ == prompt_file(
                    t_get(self@, name@),
                    t_get(meta@, name@),
                    name@,
                    content@,
                )
            } else {
                r matches Err(e) && is_invalid_data(e, name_error(name@))
            },
    {
        match self.path_of(name) {
            Ok(_) => Ok(self.to_prompt_file(name, content, meta)),
            Err(e) => Err(e),
        }
    }

    /// Restore the built-in default: the template to write, and in `meta` the record to
    /// save once it is written. Errors for templates that have none (user-created).
    pub fn reset(&self, name: &str, meta: &mut Table<String>) -> (r: Result<
        PromptFile,
        MaestroError,
    >)
        requires
            self.wf(),
            old(meta).wf(),
        ensures
            final(meta).wf(),
            match t_get(self@, name@) {
                None => final(meta)@ == old(meta)@ && (r matches Err(e) && is_config(
                    e,
                    "no built-in default for prompt template: "@ + name@,
                )),
                // The file is the current default again — record that, so future shipped
                // updates keep flowing to it automatically.
                Some(d) => final(meta)@ == t_put(
                    old(meta)@,
                    name@,
                    fingerprint(normal_form(d)),
                ) && (r matches Ok(f) && f@ == prompt_file(
                    Some(d),
                    t_get(old(meta)@, name@),
                    name@,
                    d,
                )),
            },
    {
        match self.default_for(name) {
            None => Err(
                MaestroError::Config {
                    message: text_of("no built-in default for prompt template: ").concat(name),
                },
            ),
            Some(d) => {
                proof {
                    lemma_default_name(self@, name@);
                }
                let file: PromptFile = match self.save(name, d, meta) {
                    Ok(f) => f,
                    Err(e) => return Err(e),
                };
                meta.insert(name, fnv1a(normalize(d).as_str()));
                Ok(file)
            },
        }
    }

    /// The file to remove for a custom template. Refuses templates with a built-in
    /// default — "Reset to default" is the right operation for those; deleting the file
    /// would just have it silently reappear as a fresh default copy.
    pub fn delete(&self, name: &str) -> (r: Result<String, MaestroError>)
        requires
            self.wf(),
        ensures
            if t_get(self@, name@) is Some {
                r matches Err(e) && is_config(
                    e,
                    "\""@ + name@ + "\" has a built-in default — reset it instead of deleting"@,
                )
            } else if !valid_name(name@) {
                r matches Err(e) && is_invalid_data(e, name_error(name@))
            } else {
                r matches Ok(f) && f@ == name@ + ".md"@
            },
    {
        match self.default_for(name) {
            Some(_) => Err(
                MaestroError::Config {
                    message: text_of("\"").concat(name).concat(
                        "\" has a built-in default — reset it instead of deleting",
                    ),
                },
            ),
            None => self.path_of(name),
        }
    }

    fn to_prompt_file(&self, name: &str, content: &str, meta: &Table<String>) -> (f: PromptFile)
        requires
            self.wf(),
            meta.wf(),
        ensures
            f@ == prompt_file(t_get(self@, name@), t_get(meta@, name@), name@, content@),
    {
        let parsed: PromptTemplate = parse_template(name, content);
        let mut modified: bool = false;
        let mut update_available: bool = false;
        let mut has_default: bool = false;
        match self.default_for(name) {
            Some(d) => {
                has_default = true;
                let plain: String = normalize(d);
                modified = !same_text(plain.as_str(), normalize(content).as_str());
                // Edited template + a default that moved since it was installed: resetting
                // would pick up the newer default. Unedited ones are auto-updated at
                // startup, so this can only be true for edits.
                if modified {
                    match meta.get(name) {
                        Some(installed) => {
                            update_available =
                            !same_text(installed.as_str(), fnv1a(plain.as_str()).as_str());
                        },
                        None => {},
                    }
                }
            },
            None => {},
        }
        PromptFile {
            name: text_of(name),
            description: parsed.description,
            variables: parsed.variables,
            has_default,
            modified,
            update_available,
            content: text_of(content),
        }
    }

    /// Whether every one of these templates may have its name.
    pub fn named_well(defaults: &Table<String>) -> (b: bool)
        ensures
            b == valid_names(defaults@),
    {
        let ghost all = defaults@;
        let mut i: usize = 0;
        while i < defaults.entries.len()
            invariant
                i <= defaults.entries@.len(),
                all == defaults@,
                all.len() == defaults.entries@.len(),
                forall|k: int| 0 <= k < i ==> valid_name((#[trigger] all[k]).0),
            decreases defaults.entries@.len() - i,
        {
            assert(all[i as int].0 == defaults.entries@[i as int].key@);
            if !is_valid_name(defaults.entries[i].key.as_str()) {
                return false;
            }
            i += 1;
        }
        true
    }

    /// The file of a template within the prompts directory. Rejects names that would escape
    /// it.
    pub fn path_of(&self, name: &str) -> (r: Result<String, MaestroError>)
        ensures
            if valid_name(name@) {
                r matches Ok(f) && f@ == name@ + ".md"@
            } else {
                r matches Err(e) && is_invalid_data(e, name_error(name@))
            },
    {
        if is_valid_name(name) {
            Ok(text_of(name).concat(".md"))
        } else {
            Err(
                MaestroError::InvalidData {
                    message: text_of("invalid prompt template name: ").concat(name),
                },
            )
        }
    }

    /// Parse `<name>.md`; `read` is what came of reading it.
    pub fn load(&self, name: &str, read: FileRead) -> (r: Result<PromptTemplate, MaestroError>)
        ensures
            if !valid_name(name@) {
                r matches Err(e) && is_invalid_data(e, name_error(name@))
            } else {
                match read {
                    FileRead::Text(raw) => r matches Ok(t) && t@ == parsed_template(name@, raw@),
                    _ => r matches Err(e) && is_read_error(e, name@, read),
                }
            },
    {
        match self.read_raw(name, read) {
            Ok(raw) => Ok(parse_template(name, raw.as_str())),
            Err(e) => Err(e),
        }
    }

    fn read_raw(&self, name: &str, read: FileRead) -> (r: Result<String, MaestroError>)
        ensures
            if !valid_name(name@) {
                r matches Err(e) && is_invalid_data(e, name_error(name@))
            } else {
                match read {
                    FileRead::Text(raw) => r matches Ok(t) && t@ == raw@,
                    _ => r matches Err(e) && is_read_error(e, name@, read),
                }
            },
    {
        match self.path_of(name) {
            Ok(_) => {},
            Err(e) => return Err(e),
        }
        match read {
            FileRead::Text(raw) => Ok(raw),
            FileRead::NotFound { path } => Err(
                MaestroError::Config {
                    message: text_of("prompt template not found: ").concat(name).concat(
                        " (",
                    ).concat(path.as_str()).concat(")"),
                },
            ),
            // Permission denied, invalid UTF-8, ... — report what actually happened.
            FileRead::Failed { message } => Err(MaestroError::Io { message }),
        }
    }

    /// Render the body of `name` with `vars`. Placeholders with no matching key are left
    /// verbatim, so a misconfigured template is visible, not silently dropped.
    pub fn render(&self, name: &str, read: FileRead, vars: &Table<String>) -> (r: Result<
        String,
        MaestroError,
    >)
        requires
            vars.wf(),
        ensures
            if !valid_name(name@) {
                r matches Err(e) && is_invalid_data(e, name_error(name@))
            } else {
                match read {
                    FileRead::Text(raw) => r matches Ok(t) && t@ == rendered(
                        parsed_template(name@, raw@).body,
                        vars@,
                    ),
                    _ => r matches Err(e) && is_read_error(e, name@, read),
                }
            },
    {
        match self.load(name, read) {
            Ok(template) => Ok(render_body(template.body.as_str(), vars)),
            Err(e) => Err(e),
        }
    }

    /// Render arbitrary template text — an editor draft, saved or not — with a labeled
    /// sample value for each declared variable: the preview must show the draft, not the
    /// last saved file.
    pub fn preview(raw: &str) -> (r: String)
        ensures
            ({
                let t = parsed_template("preview"@, raw@);
                r@ == rendered(t.body, samples(t.variables))
            }),
    {
        let template: PromptTemplate = parse_template("preview", raw);
        let ghost names = views(template.variables@);
        let mut vars: Table<String> = Table::new();
        let mut i: usize = 0;
        assert(names.take(0) =~= seq![]);
        while i < template.variables.len()
            invariant
                i <= template.variables@.len(),
                vars.wf(),
                names == views(template.variables@),
                vars@ == samples(names.take(i as int)),
            decreases template.variables@.len() - i,
        {
            assert(names.take(i + 1).drop_last() =~= names.take(i as int));
            let v: &str = template.variables[i].as_str();
            assert(names.take(i + 1).last() == v@);
            vars.insert(v, text_of("[sample ").concat(v).concat("]"));
            i += 1;
        }
        assert(names.take(i as int) =~= names);
        render_body(template.body.as_str(), &vars)
    }
}

} // verus!
