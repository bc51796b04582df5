//! Blast-radius analysis: which files reference what just changed on a branch.
//!
//! An agent edits five files; the question that remains is "what else does this
//! touch?". This module answers it without a language server: changed files get a
//! *signature* (their name stem plus their exported symbols, extracted with per-language
//! line scans), and every other tracked source file is scanned for references to those
//! signatures — import lines count as strong links, plain symbol mentions as weaker ones. A
//! second ring (files importing the first ring) is computed from import links only, so the
//! radius stays signal, not noise.
//!
//! Everything is bounded: file count, file size, symbols per file, result count. A repo an
//! order of magnitude bigger than expected degrades to a truncated report, never a hung UI.
use crate::sorting::{
    deduped, is_ranking, is_sorted, item_views, sort_ranked, sorted,
    sorting_keeps_the_items_and_orders_them, Ranked,
};
use crate::text::{
    ascii_alnum, before, char_views, chars_of, contains_text, find_char, find_text, find_last_char,
    has_prefix, has_text, is_ascii_alnum, is_at, lemma_before, lemma_next_char, lines, lines_of,
    lower_text, lowered, next_char, occurs_at, part_of, prev_char, push_all, same_text, split_on,
    split_text, starts_with, string_of, text_before, text_of, trim_start, trimmed_start,
    unicode_alphanumeric, views,
};
use vstd::prelude::*;
use vstd::slice::slice_subrange;
use vstd::string::*;

verus! {

/// Caps. Hitting any of them sets `truncated` on the report instead of erroring.
pub const MAX_CHANGED_ANALYZED: usize = 100;

pub const MAX_CANDIDATES: usize = 20_000;

pub const MAX_FILE_BYTES: u64 = 524_288;

pub const MAX_SYMBOLS_PER_FILE: usize = 30;

pub const MAX_IMPACTED: usize = 500;

pub const MAX_LINKS_PER_FILE: usize = 8;

// ---------------------------------------------------------------------------
// Paths
// ---------------------------------------------------------------------------

/// The components of a path that name something.
pub open spec fn components(parts: Seq<Seq<char>>) -> Seq<Seq<char>>
    decreases parts.len(),
{
    if parts.len() == 0 {
        seq![]
    } else if parts.last().len() == 0 || parts.last() == seq!['.'] {
        components(parts.drop_last())
    } else {
        components(parts.drop_last()).push(parts.last())
    }
}

pub open spec fn path_components(path: Seq<char>) -> Seq<Seq<char>> {
    components(split_on(path, '/'))
}

/// The component at place `i`, where it is a name.
pub open spec fn name_at(parts: Seq<Seq<char>>, i: int) -> Option<Seq<char>> {
    if 0 <= i < parts.len() && parts[i] != seq!['.', '.'] {
        Some(parts[i])
    } else {
        None
    }
}

/// The file name of a path.
pub open spec fn file_name(path: Seq<char>) -> Option<Seq<char>> {
    name_at(path_components(path), path_components(path).len() - 1)
}

/// The name of the directory that a path lies in.
pub open spec fn parent_name(path: Seq<char>) -> Option<Seq<char>> {
    name_at(path_components(path), path_components(path).len() - 2)
}

/// Where the extension of a file name begins: behind its last dot, unless that is its first
/// character.
pub open spec fn extension_dot(name: Seq<char>) -> Option<int> {
    match prev_char(name, '.', name.len() as int) {
        Some(i) => if i == 0 {
            None
        } else {
            Some(i)
        },
        None => None,
    }
}

pub open spec fn stem_of(name: Seq<char>) -> Seq<char> {
    match extension_dot(name) {
        Some(i) => name.subrange(0, i),
        None => name,
    }
}

/// The extension of a path's file name, in lower case; empty if it has none.
pub open spec fn extension_of(path: Seq<char>) -> Seq<char> {
    match file_name(path) {
        Some(name) => match extension_dot(name) {
            Some(i) => lowered(name.subrange(i + 1, name.len() as int)),
            None => seq![],
        },
        None => seq![],
    }
}

/// Extensions we treat as source code (scanned as candidates and analyzed as changed
/// files). Everything else — configs, lockfiles, images — is skipped.
pub open spec fn is_source_extension(e: Seq<char>) -> bool {
    e == "rs"@ || e == "ts"@ || e == "tsx"@ || e == "js"@ || e == "jsx"@ || e == "mjs"@ || e
        == "cjs"@ || e == "cs"@ || e == "py"@ || e == "go"@ || e == "java"@ || e == "kt"@ || e
        == "swift"@ || e == "rb"@ || e == "php"@ || e == "vue"@ || e == "svelte"@
}

/// File stems too generic to identify a module by name; the parent directory name
/// identifies those files instead (`core/session/mod.rs` → `session`).
pub open spec fn is_generic_stem(s: Seq<char>) -> bool {
    let l = lowered(s);
    l == "mod"@ || l == "index"@ || l == "main"@ || l == "lib"@ || l == "types"@ || l == "utils"@
        || l == "helpers"@
}

pub open spec fn is_source(path: Seq<char>) -> bool {
    is_source_extension(extension_of(path))
}

/// What identifies a file by name.
pub open spec fn file_stem(path: Seq<char>) -> Seq<char> {
    let raw = match file_name(path) {
        Some(name) => stem_of(name),
        None => seq![],
    };
    if is_generic_stem(raw) {
        match parent_name(path) {
            Some(dir) => dir,
            None => raw,
        }
    } else {
        raw
    }
}

fn copy_chars(s: &[char]) -> (v: Vec<char>)
    ensures
        v@ == s@,
{
    let mut v: Vec<char> = Vec::new();
    push_all(&mut v, s);
    assert(v@ =~= s@);
    v
}

fn split_path(path: &str) -> (r: Vec<Vec<char>>)
    ensures
        char_views(r@) == path_components(path@),
{
    let s: Vec<char> = chars_of(path);
    let parts: Vec<Vec<char>> = split_text(s.as_slice(), '/');
    let ghost ps = char_views(parts@);
    let mut r: Vec<Vec<char>> = Vec::new();
    let mut i: usize = 0;
    assert(char_views(r@) =~= components(ps.take(0)));
    while i < parts.len()
        invariant
            i <= parts@.len(),
            ps == char_views(parts@),
            char_views(r@) == components(ps.take(i as int)),
        decreases parts@.len() - i,
    {
        let ghost done = char_views(r@);
        assert(ps.take(i + 1).drop_last() =~= ps.take(i as int));
        assert(ps.take(i + 1).last() == parts@[i as int]@);
        let here: bool = parts[i].len() == 1 && parts[i][0] == '.';
        assert(here == (parts@[i as int]@ =~= seq!['.']));
        if parts[i].len() > 0 && !here {
            r.push(copy_chars(parts[i].as_slice()));
            assert(char_views(r@) =~= done.push(parts@[i as int]@));
        }
        i += 1;
    }
    assert(ps.take(i as int) =~= ps);
    r
}

fn is_up(part: &Vec<char>) -> (b: bool)
    ensures
        b == (part@ == seq!['.', '.']),
{
    let b: bool = part.len() == 2 && part[0] == '.' && part[1] == '.';
    assert(b == (part@ =~= seq!['.', '.']));
    b
}

/// Where the extension of a file name begins.
fn find_extension(name: &[char]) -> (r: Option<usize>)
    ensures
        match r {
            Some(i) => extension_dot(name@) == Some(i as int) && i < name@.len(),
            None => extension_dot(name@) is None,
        },
{
    match find_last_char(name, '.') {
        Some(i) => {
            if i == 0 {
                None
            } else {
                Some(i)
            }
        },
        None => None,
    }
}

fn extension(parts: &Vec<Vec<char>>, path: &str) -> (r: String)
    requires
        char_views(parts@) == path_components(path@),
    ensures
        r@ == extension_of(path@),
{
    let none: String = String::new();
    assert(none@ =~= seq![]);
    if parts.len() == 0 {
        return none;
    }
    let last: usize = parts.len() - 1;
    assert(char_views(parts@)[last as int] == parts@[last as int]@);
    if is_up(&parts[last]) {
        return none;
    }
    let name: &[char] = parts[last].as_slice();
    let n: usize = name.len();
    match find_extension(name) {
        Some(i) => {
            let low: Vec<char> = lower_text(slice_subrange(name, i + 1, n));
            string_of(low.as_slice())
        },
        None => none,
    }
}

pub fn is_source_file(path: &str) -> (b: bool)
    ensures
        b == is_source(path@),
{
    let parts: Vec<Vec<char>> = split_path(path);
    let e: String = extension(&parts, path);
    let e: &str = e.as_str();
    same_text(e, "rs") || same_text(e, "ts") || same_text(e, "tsx") || same_text(e, "js")
        || same_text(e, "jsx") || same_text(e, "mjs") || same_text(e, "cjs") || same_text(e, "cs")
        || same_text(e, "py") || same_text(e, "go") || same_text(e, "java") || same_text(e, "kt")
        || same_text(e, "swift") || same_text(e, "rb") || same_text(e, "php") || same_text(e, "vue")
        || same_text(e, "svelte")
}

fn is_generic(stem: &[char]) -> (b: bool)
    ensures
        b == is_generic_stem(stem@),
{
    let low: Vec<char> = lower_text(stem);
    let l: String = string_of(low.as_slice());
    let l: &str = l.as_str();
    same_text(l, "mod") || same_text(l, "index") || same_text(l, "main") || same_text(l, "lib")
        || same_text(l, "types") || same_text(l, "utils") || same_text(l, "helpers")
}

fn stem(parts: &Vec<Vec<char>>, path: &str) -> (r: String)
    requires
        char_views(parts@) == path_components(path@),
    ensures
        r@ == file_stem(path@),
{
    let ghost pv = char_views(parts@);
    let empty: Vec<char> = Vec::new();
    assert(empty@ =~= seq![]);
    let raw: &[char] = if parts.len() == 0 {
        empty.as_slice()
    } else {
        let last: usize = parts.len() - 1;
        assert(pv[last as int] == parts@[last as int]@);
        if is_up(&parts[last]) {
            empty.as_slice()
        } else {
            let name: &[char] = parts[last].as_slice();
            match find_extension(name) {
                Some(i) => slice_subrange(name, 0, i),
                None => name,
            }
        }
    };
    if is_generic(raw) && parts.len() >= 2 {
        let dir: usize = parts.len() - 2;
        assert(pv[dir as int] == parts@[dir as int]@);
        if !is_up(&parts[dir]) {
            return string_of(parts[dir].as_slice());
        }
    }
    string_of(raw)
}

// ---------------------------------------------------------------------------
// Symbols
// ---------------------------------------------------------------------------

/// Where the identifier that begins at `i` ends.
pub open spec fn identifier_end(s: Seq<char>, i: int) -> int
    decreases s.len() - i,
{
    if 0 <= i < s.len() && (unicode_alphanumeric(s[i]) || s[i] == '_') {
        identifier_end(s, i + 1)
    } else {
        i
    }
}

/// The identifier that a text begins with.
pub open spec fn first_name(s: Seq<char>) -> Option<Seq<char>> {
    let e = identifier_end(s, 0);
    if e == 0 {
        None
    } else {
        Some(s.subrange(0, e))
    }
}

fn first_identifier(s: &[char]) -> (r: Option<String>)
    ensures
        crate::text::opt_view(r) == first_name(s@),
{
    let mut e: usize = 0;
    while e < s.len() && (s[e].is_alphanumeric() || s[e] == '_')
        invariant
            e <= s@.len(),
            identifier_end(s@, 0) == identifier_end(s@, e as int),
        decreases s@.len() - e,
    {
        e += 1;
    }
    if e == 0 {
        None
    } else {
        Some(part_of(s, 0, e))
    }
}

/// What follows the first of the `words` that `s` begins with.
pub open spec fn after_word(s: Seq<char>, words: Seq<Seq<char>>) -> Option<Seq<char>>
    decreases words.len(),
{
    if words.len() == 0 {
        None
    } else if has_prefix(s, words[0]) {
        Some(s.subrange(words[0].len() as int, s.len() as int))
    } else {
        after_word(s, words.subrange(1, words.len() as int))
    }
}

/// The name behind the first of the `words` that `s` begins with.
pub open spec fn name_after(s: Seq<char>, words: Seq<Seq<char>>) -> Option<Seq<char>> {
    match after_word(s, words) {
        Some(rest) => first_name(rest),
        None => None,
    }
}

/// `s` without `word`, if it begins with it.
pub open spec fn skipping(s: Seq<char>, word: Seq<char>) -> Seq<char> {
    if has_prefix(s, word) {
        s.subrange(word.len() as int, s.len() as int)
    } else {
        s
    }
}

pub open spec fn rust_words() -> Seq<Seq<char>> {
    seq![
        "fn "@,
        "struct "@,
        "enum "@,
        "trait "@,
        "const "@,
        "type "@,
        "static "@,
        "async fn "@,
    ]
}

/// What a Rust line makes public: `pub` or `pub(..)`, a keyword and the name.
pub open spec fn rust_name(line: Seq<char>) -> Option<Seq<char>> {
    if !has_prefix(line, "pub"@) {
        None
    } else {
        let rest = line.subrange(3, line.len() as int);
        if rest.len() > 0 && rest[0] == '(' {
            let close = next_char(rest, ')', 1);
            if close >= rest.len() {
                None
            } else {
                name_after(trim_start(rest.subrange(close + 1, rest.len() as int)), rust_words())
            }
        } else {
            name_after(trim_start(rest), rust_words())
        }
    }
}

pub open spec fn ts_words() -> Seq<Seq<char>> {
    seq![
        "function "@,
        "const "@,
        "let "@,
        "class "@,
        "interface "@,
        "type "@,
        "enum "@,
    ]
}

/// What a TypeScript line exports.
pub open spec fn ts_name(line: Seq<char>) -> Option<Seq<char>> {
    if !has_prefix(line, "export "@) {
        None
    } else {
        let rest = line.subrange(7, line.len() as int);
        name_after(
            skipping(skipping(skipping(rest, "default "@), "abstract "@), "async "@),
            ts_words(),
        )
    }
}

pub open spec fn csharp_modifiers() -> Seq<Seq<char>> {
    seq!["static "@, "sealed "@, "abstract "@, "partial "@, "readonly "@, "ref "@]
}

/// `s` without the modifiers that it begins with, in any order.
pub open spec fn unmodified(s: Seq<char>) -> Seq<char>
    decreases s.len(),
{
    match after_word(s, csharp_modifiers()) {
        Some(rest) => if rest.len() < s.len() {
            unmodified(rest)
        } else {
            s
        },
        None => s,
    }
}

/// Types are the contracts other files name; methods are too noisy.
pub open spec fn csharp_words() -> Seq<Seq<char>> {
    seq!["class "@, "interface "@, "record "@, "struct "@, "enum "@]
}

/// The type that a C# line declares for others.
pub open spec fn csharp_name(line: Seq<char>) -> Option<Seq<char>> {
    match after_word(line, seq!["public "@, "internal "@]) {
        Some(rest) => name_after(unmodified(rest), csharp_words()),
        None => None,
    }
}

pub open spec fn python_words() -> Seq<Seq<char>> {
    seq!["def "@, "class "@]
}

/// The symbol that a line exports, for a file with this extension. Of Python, column 0
/// only: top-level definitions.
pub open spec fn line_symbol(line: Seq<char>, ext: Seq<char>) -> Option<Seq<char>> {
    let t = trim_start(line);
    if ext == "rs"@ {
        rust_name(t)
    } else if ext == "ts"@ || ext == "tsx"@ || ext == "js"@ || ext == "jsx"@ || ext == "mjs"@
        || ext == "cjs"@ {
        ts_name(t)
    } else if ext == "cs"@ {
        csharp_name(t)
    } else if ext == "py"@ {
        name_after(line, python_words())
    } else {
        None
    }
}

/// The symbols that the lines export, each once, and none with fewer than three characters —
/// short names match everything.
pub open spec fn exported(ls: Seq<Seq<char>>, ext: Seq<char>) -> Seq<Seq<char>>
    decreases ls.len(),
{
    if ls.len() == 0 {
        seq![]
    } else {
        let found = exported(ls.drop_last(), ext);
        match line_symbol(ls.last(), ext) {
            Some(name) => if name.len() >= 3 && !found.contains(name) {
                found.push(name)
            } else {
                found
            },
            None => found,
        }
    }
}

/// The symbols that are searched for: the first ones, as many as the cap allows.
pub open spec fn symbols_in(ls: Seq<Seq<char>>, ext: Seq<char>) -> Seq<Seq<char>> {
    capped(exported(ls, ext), MAX_SYMBOLS_PER_FILE as int)
}

/// Whether the file exports more symbols than are searched for.
pub open spec fn symbols_cut(f: ScannedV) -> bool {
    f.content matches Some(c) && exported(lines(c), extension_of(f.path)).len()
        > MAX_SYMBOLS_PER_FILE
}

fn strip_word<'a>(s: &'a [char], words: &Vec<&str>) -> (r: Option<&'a [char]>)
    ensures
        match r {
            Some(rest) => after_word(s@, words@.map_values(|w: &str| w@)) == Some(rest@),
            None => after_word(s@, words@.map_values(|w: &str| w@)) is None,
        },
{
    let ghost wv = words@.map_values(|w: &str| w@);
    let mut i: usize = 0;
    assert(wv.skip(0) =~= wv);
    while i < words.len()
        invariant
            i <= words@.len(),
            wv == words@.map_values(|w: &str| w@),
            after_word(s@, wv) == after_word(s@, wv.skip(i as int)),
        decreases words@.len() - i,
    {
        let w: Vec<char> = chars_of(words[i]);
        assert(wv.skip(i as int)[0] == w@);
        if starts_with(s, w.as_slice()) {
            return Some(slice_subrange(s, w.len(), s.len()));
        }
        assert(wv.skip(i as int).subrange(1, wv.len() - i) =~= wv.skip(i + 1));
        i += 1;
    }
    None
}

fn word_name(s: &[char], words: &Vec<&str>) -> (r: Option<String>)
    ensures
        crate::text::opt_view(r) == name_after(s@, words@.map_values(|w: &str| w@)),
{
    match strip_word(s, words) {
        Some(rest) => first_identifier(rest),
        None => None,
    }
}

fn skip_word<'a>(s: &'a [char], word: &str) -> (r: &'a [char])
    ensures
        r@ == skipping(s@, word@),
{
    let w: Vec<char> = chars_of(word);
    if starts_with(s, w.as_slice()) {
        slice_subrange(s, w.len(), s.len())
    } else {
        s
    }
}

fn rust_symbol(line: &[char]) -> (r: Option<String>)
    ensures
        crate::text::opt_view(r) == rust_name(line@),
{
    proof {
        reveal_strlit("pub");
    }
    let public: Vec<char> = chars_of("pub");
    if !starts_with(line, public.as_slice()) {
        return None;
    }
    let rest: &[char] = slice_subrange(line, 3, line.len());
    // `pub(crate)`, `pub(super)`, …
    let rest: &[char] = if rest.len() > 0 && rest[0] == '(' {
        proof {
            lemma_next_char(rest@, ')', 1);
        }
        let n: usize = rest.len();
        let close: usize = find_char(rest, ')', 1);
        if close >= n {
            return None;
        }
        slice_subrange(rest, close + 1, n)
    } else {
        rest
    };
    let words: Vec<&str> = vec![
        "fn ",
        "struct ",
        "enum ",
        "trait ",
        "const ",
        "type ",
        "static ",
        "async fn ",
    ];
    assert(words@.map_values(|w: &str| w@) =~= rust_words());
    word_name(trimmed_start(rest), &words)
}

fn ts_symbol(line: &[char]) -> (r: Option<String>)
    ensures
        crate::text::opt_view(r) == ts_name(line@),
{
    proof {
        reveal_strlit("export ");
    }
    let export: Vec<char> = chars_of("export ");
    if !starts_with(line, export.as_slice()) {
        return None;
    }
    let rest: &[char] = slice_subrange(line, 7, line.len());
    let rest: &[char] = skip_word(
        skip_word(skip_word(rest, "default "), "abstract "),
        "async ",
    );
    let words: Vec<&str> = vec![
        "function ",
        "const ",
        "let ",
        "class ",
        "interface ",
        "type ",
        "enum ",
    ];
    assert(words@.map_values(|w: &str| w@) =~= ts_words());
    word_name(rest, &words)
}

fn csharp_symbol(line: &[char]) -> (r: Option<String>)
    ensures
        crate::text::opt_view(r) == csharp_name(line@),
{
    let access: Vec<&str> = vec!["public ", "internal "];
    assert(access@.map_values(|w: &str| w@) =~= seq!["public "@, "internal "@]);
    let modifiers: Vec<&str> = vec![
        "static ",
        "sealed ",
        "abstract ",
        "partial ",
        "readonly ",
        "ref ",
    ];
    assert(modifiers@.map_values(|w: &str| w@) =~= csharp_modifiers());
    let words: Vec<&str> = vec!["class ", "interface ", "record ", "struct ", "enum "];
    assert(words@.map_values(|w: &str| w@) =~= csharp_words());
    let start: &[char] = match strip_word(line, &access) {
        Some(rest) => rest,
        None => return None,
    };
    let mut rest: &[char] = start;
    // Skip modifier soup in any order.
    loop
        invariant
            modifiers@.map_values(|w: &str| w@) == csharp_modifiers(),
            words@.map_values(|w: &str| w@) == csharp_words(),
            csharp_name(line@) == name_after(unmodified(rest@), csharp_words()),
        decreases rest@.len(),
    {
        match strip_word(rest, &modifiers) {
            Some(after) => {
                if after.len() >= rest.len() {
                    return word_name(rest, &words);
                }
                rest = after;
            },
            None => return word_name(rest, &words),
        }
    }
}

fn python_symbol(line: &[char]) -> (r: Option<String>)
    ensures
        crate::text::opt_view(r) == name_after(line@, python_words()),
{
    let words: Vec<&str> = vec!["def ", "class "];
    assert(words@.map_values(|w: &str| w@) =~= python_words());
    word_name(line, &words)
}

fn symbol_of(line: &[char], ext: &str) -> (r: Option<String>)
    ensures
        crate::text::opt_view(r) == line_symbol(line@, ext@),
{
    let t: &[char] = trimmed_start(line);
    if same_text(ext, "rs") {
        rust_symbol(t)
    } else if same_text(ext, "ts") || same_text(ext, "tsx") || same_text(ext, "js") || same_text(
        ext,
        "jsx",
    ) || same_text(ext, "mjs") || same_text(ext, "cjs") {
        ts_symbol(t)
    } else if same_text(ext, "cs") {
        csharp_symbol(t)
    } else if same_text(ext, "py") {
        python_symbol(line)
    } else {
        None
    }
}

proof fn lemma_exported_prefix(ls: Seq<Seq<char>>, ext: Seq<char>, i: int)
    requires
        0 <= i <= ls.len(),
    ensures
        exported(ls.take(i), ext).len() <= exported(ls, ext).len(),
        exported(ls, ext).take(exported(ls.take(i), ext).len() as int) == exported(
            ls.take(i),
            ext,
        ),
    decreases ls.len(),
{
    if i == ls.len() {
        assert(ls.take(i) =~= ls);
        assert(exported(ls, ext).take(exported(ls, ext).len() as int) =~= exported(ls, ext));
    } else {
        let d = ls.drop_last();
        assert(d.take(i) =~= ls.take(i));
        lemma_exported_prefix(d, ext, i);
        let n = exported(ls.take(i), ext).len() as int;
        assert(exported(ls, ext).take(n) =~= exported(d, ext).take(n));
    }
}

/// The first symbols that a file exports, `limit` at most.
fn first_symbols(content: &str, ext: &str, limit: usize) -> (r: Vec<String>)
    ensures
        views(r@) == capped(exported(lines(content@), ext@), limit as int),
{
    let s: Vec<char> = chars_of(content);
    let ls: Vec<Vec<char>> = lines_of(s.as_slice());
    let ghost lv = char_views(ls@);
    let mut symbols: Vec<String> = Vec::new();
    let mut i: usize = 0;
    assert(views(symbols@) =~= exported(lv.take(0), ext@));
    while i < ls.len() && symbols.len() < limit
        invariant
            i <= ls@.len(),
            symbols@.len() <= limit,
            lv == char_views(ls@),
            views(symbols@) == exported(lv.take(i as int), ext@),
        decreases ls@.len() - i,
    {
        let ghost done = views(symbols@);
        assert(lv.take(i + 1).drop_last() =~= lv.take(i as int));
        assert(lv.take(i + 1).last() == ls@[i as int]@);
        match symbol_of(ls[i].as_slice(), ext) {
            Some(name) => {
                if chars_of(name.as_str()).len() >= 3 && !has_text(&symbols, name.as_str()) {
                    let ghost n = name@;
                    symbols.push(name);
                    assert(views(symbols@) =~= done.push(n));
                }
            },
            None => {},
        }
        i += 1;
    }
    proof {
        lemma_exported_prefix(lv, ext@, i as int);
        assert(views(symbols@).len() == symbols@.len());
        if i == ls.len() {
            assert(lv.take(i as int) =~= lv);
        }
        assert(views(symbols@) =~= capped(exported(lv, ext@), limit as int));
    }
    symbols
}

/// Exported/public symbols via a cheap per-language line scan. Deliberately shallow: names
/// that appear in other files are the point, not a full parse.
pub fn extract_symbols(content: &str, ext: &str) -> (r: Vec<String>)
    ensures
        views(r@) == symbols_in(lines(content@), ext@),
{
    first_symbols(content, ext, MAX_SYMBOLS_PER_FILE)
}

fn has_more_symbols(file: &ScannedFile) -> (b: bool)
    ensures
        b == symbols_cut(file@),
{
    match &file.content {
        Some(content) => {
            let parts: Vec<Vec<char>> = split_path(file.path.as_str());
            let ext: String = extension(&parts, file.path.as_str());
            let more: Vec<String> = first_symbols(
                content.as_str(),
                ext.as_str(),
                MAX_SYMBOLS_PER_FILE + 1,
            );
            assert(views(more@).len() == more@.len());
            more.len() > MAX_SYMBOLS_PER_FILE
        },
        None => false,
    }
}

// ---------------------------------------------------------------------------
// Signatures and links
// ---------------------------------------------------------------------------

/// What we search for on behalf of one changed file.
#[derive(Debug)]
pub struct FileSignature {
    pub path: String,
    /// Name stem (or parent-dir name for generic stems like `mod.rs`).
    pub stem: String,
    /// Exported symbols, per-language line scan; empty for deleted files.
    pub symbols: Vec<String>,
}

#[verifier::ext_equal]
pub struct SignatureV {
    pub path: Seq<char>,
    pub stem: Seq<char>,
    pub symbols: Seq<Seq<char>>,
}

impl View for FileSignature {
    type V = SignatureV;

    open spec fn view(&self) -> SignatureV {
        SignatureV { path: self.path@, stem: self.stem@, symbols: views(self.symbols@) }
    }
}

pub open spec fn signature_views(s: Seq<FileSignature>) -> Seq<SignatureV> {
    s.map_values(|x: FileSignature| x@)
}

pub open spec fn signature_of(path: Seq<char>, content: Option<Seq<char>>) -> SignatureV {
    SignatureV {
        path,
        stem: file_stem(path),
        symbols: match content {
            Some(c) => symbols_in(lines(c), extension_of(path)),
            None => seq![],
        },
    }
}

/// Name stem plus exported symbols for one changed file.
pub fn derive_signature(path: &str, content: Option<&str>) -> (r: FileSignature)
    ensures
        r@ == signature_of(
            path@,
            match content {
                Some(c) => Some(c@),
                None => None,
            },
        ),
{
    let parts: Vec<Vec<char>> = split_path(path);
    let stem: String = stem(&parts, path);
    let symbols: Vec<String> = match content {
        Some(c) => extract_symbols(c, extension(&parts, path).as_str()),
        None => Vec::new(),
    };
    let r: FileSignature = FileSignature { path: text_of(path), stem, symbols };
    assert(r@.symbols =~= (match content {
        Some(c) => symbols_in(lines(c@), extension_of(path@)),
        None => seq![],
    }));
    r
}

/// Characters that an identifier is made of.
pub open spec fn is_identifier_char(c: char) -> bool {
    is_ascii_alnum(c) || c == '_'
}

/// Whether `needle` stands at `i` with no identifier character on either side.
pub open spec fn is_word_at(s: Seq<char>, needle: Seq<char>, i: int) -> bool {
    &&& occurs_at(s, needle, i)
    &&& i == 0 || !is_identifier_char(s[i - 1])
    &&& i + needle.len() >= s.len() || !is_identifier_char(s[i + needle.len()])
}

/// Whether `s` contains `needle` as a whole word.
pub open spec fn has_word(s: Seq<char>, needle: Seq<char>) -> bool {
    needle.len() > 0 && exists|i: int| 0 <= i < s.len() && #[trigger] is_word_at(s, needle, i)
}

fn has_word_in(s: &[char], needle: &[char]) -> (b: bool)
    ensures
        b == has_word(s@, needle@),
{
    if needle.len() == 0 {
        return false;
    }
    let n: usize = s.len();
    let mut i: usize = 0;
    while i < n
        invariant
            i <= n,
            n == s@.len(),
            needle@.len() > 0,
            forall|k: int| 0 <= k < i ==> !#[trigger] is_word_at(s@, needle@, k),
        decreases n - i,
    {
        if is_at(s, needle, i) {
            assert(i + needle@.len() <= n);
            let end: usize = i + needle.len();
            let before_ok: bool = i == 0 || !(ascii_alnum(s[i - 1]) || s[i - 1] == '_');
            let after_ok: bool = end >= n || !(ascii_alnum(s[end]) || s[end] == '_');
            if before_ok && after_ok {
                assert(is_word_at(s@, needle@, i as int));
                return true;
            }
        }
        i += 1;
    }
    false
}

/// Does `content` contain `needle` as a whole word (non-identifier chars on both sides)?
pub fn contains_word(content: &str, needle: &str) -> (b: bool)
    ensures
        b == has_word(content@, needle@),
{
    let s: Vec<char> = chars_of(content);
    let w: Vec<char> = chars_of(needle);
    has_word_in(s.as_slice(), w.as_slice())
}

/// Is this line an import/use/require line for its (unknown) language?
pub open spec fn is_import(line: Seq<char>) -> bool {
    has_prefix(line, "use "@) || has_prefix(line, "import "@) || has_prefix(line, "from "@) || (
    has_prefix(line, "export "@) && contains_text(line, " from "@)) || contains_text(
        line,
        "require("@,
    )
}

fn begins(s: &[char], p: &str) -> (b: bool)
    ensures
        b == has_prefix(s@, p@),
{
    let w: Vec<char> = chars_of(p);
    starts_with(s, w.as_slice())
}

fn holds(s: &[char], p: &str) -> (b: bool)
    ensures
        b == contains_text(s@, p@),
{
    let w: Vec<char> = chars_of(p);
    find_text(s, w.as_slice(), 0).is_some()
}

fn is_import_line(line: &[char]) -> (b: bool)
    ensures
        b == is_import(line@),
{
    begins(line, "use ") || begins(line, "import ") || begins(line, "from ") || (begins(
        line,
        "export ",
    ) && holds(line, " from ")) || holds(line, "require(")
}

#[derive(Debug)]
pub struct ImpactLink {
    /// The changed (or ring-1) file this one points at.
    pub target: String,
    /// `"import"` (an import/use line names it) or `"reference"` (a symbol exported from it
    /// is mentioned).
    pub kind: String,
    /// The stem or symbol that matched.
    pub matched: String,
}

#[verifier::ext_equal]
pub struct LinkV {
    pub target: Seq<char>,
    pub kind: Seq<char>,
    pub matched: Seq<char>,
}

impl View for ImpactLink {
    type V = LinkV;

    open spec fn view(&self) -> LinkV {
        LinkV { target: self.target@, kind: self.kind@, matched: self.matched@ }
    }
}

pub open spec fn link_views(s: Seq<ImpactLink>) -> Seq<LinkV> {
    s.map_values(|x: ImpactLink| x@)
}

/// Whether a link of this kind goes to `target`.
pub open spec fn imports_target(links: Seq<LinkV>, target: Seq<char>) -> bool {
    exists|i: int|
        0 <= i < links.len() && (#[trigger] links[i]).target == target && links[i].kind
            == "import"@
}

pub open spec fn links_target(links: Seq<LinkV>, target: Seq<char>) -> bool {
    exists|i: int| 0 <= i < links.len() && (#[trigger] links[i]).target == target
}

/// The links after one import line was held against the signatures.
pub open spec fn with_import_line(
    links: Seq<LinkV>,
    line: Seq<char>,
    sigs: Seq<SignatureV>,
) -> Seq<LinkV>
    decreases sigs.len(),
{
    if sigs.len() == 0 {
        links
    } else {
        let before = with_import_line(links, line, sigs.drop_last());
        let sig = sigs.last();
        if has_word(line, sig.stem) && !imports_target(before, sig.path) {
            before.push(LinkV { target: sig.path, kind: "import"@, matched: sig.stem })
        } else {
            before
        }
    }
}

/// Import lines referencing a changed file's stem = strong link.
pub open spec fn import_links(ls: Seq<Seq<char>>, sigs: Seq<SignatureV>) -> Seq<LinkV>
    decreases ls.len(),
{
    if ls.len() == 0 {
        seq![]
    } else {
        let before = import_links(ls.drop_last(), sigs);
        let t = trim_start(ls.last());
        if is_import(t) {
            with_import_line(before, t, sigs)
        } else {
            before
        }
    }
}

/// The first of the symbols from `i` on that the text mentions.
pub open spec fn mentioned(content: Seq<char>, symbols: Seq<Seq<char>>, i: int) -> Option<Seq<char>>
    decreases symbols.len() - i,
{
    if i < 0 || i >= symbols.len() {
        None
    } else if has_word(content, symbols[i]) {
        Some(symbols[i])
    } else {
        mentioned(content, symbols, i + 1)
    }
}

/// Exported-symbol mentions anywhere = weaker link, one per file that is not linked
/// already.
pub open spec fn with_references(
    links: Seq<LinkV>,
    content: Seq<char>,
    sigs: Seq<SignatureV>,
) -> Seq<LinkV>
    decreases sigs.len(),
{
    if sigs.len() == 0 {
        links
    } else {
        let before = with_references(links, content, sigs.drop_last());
        let sig = sigs.last();
        if links_target(before, sig.path) {
            before
        } else {
            match mentioned(content, sig.symbols, 0) {
                Some(s) => before.push(
                    LinkV { target: sig.path, kind: "reference"@, matched: s },
                ),
                None => before,
            }
        }
    }
}

/// All links from one file's text to the given signatures.
pub open spec fn links_of(content: Seq<char>, sigs: Seq<SignatureV>) -> Seq<LinkV> {
    with_references(import_links(lines(content), sigs), content, sigs)
}

fn any_import_to(links: &Vec<ImpactLink>, target: &str) -> (b: bool)
    ensures
        b == imports_target(link_views(links@), target@),
{
    let ghost lv = link_views(links@);
    let mut i: usize = 0;
    while i < links.len()
        invariant
            i <= links@.len(),
            lv == link_views(links@),
            forall|k: int|
                0 <= k < i ==> !((#[trigger] lv[k]).target == target@ && lv[k].kind
                    == "import"@),
        decreases links@.len() - i,
    {
        assert(lv[i as int] == links@[i as int]@);
        if same_text(links[i].target.as_str(), target) && same_text(
            links[i].kind.as_str(),
            "import",
        ) {
            return true;
        }
        i += 1;
    }
    false
}

fn any_link_to(links: &Vec<ImpactLink>, target: &str) -> (b: bool)
    ensures
        b == links_target(link_views(links@), target@),
{
    let ghost lv = link_views(links@);
    let mut i: usize = 0;
    while i < links.len()
        invariant
            i <= links@.len(),
            lv == link_views(links@),
            forall|k: int| 0 <= k < i ==> (#[trigger] lv[k]).target != target@,
        decreases links@.len() - i,
    {
        assert(lv[i as int] == links@[i as int]@);
        if same_text(links[i].target.as_str(), target) {
            return true;
        }
        i += 1;
    }
    false
}

fn scan_import_line(links: &mut Vec<ImpactLink>, line: &[char], sigs: &Vec<FileSignature>)
    ensures
        link_views(final(links)@) == with_import_line(
            link_views(old(links)@),
            line@,
            signature_views(sigs@),
        ),
{
    let ghost start = link_views(links@);
    let ghost sv = signature_views(sigs@);
    let mut i: usize = 0;
    assert(sv.take(0) =~= seq![]);
    while i < sigs.len()
        invariant
            i <= sigs@.len(),
            sv == signature_views(sigs@),
            link_views(links@) == with_import_line(start, line@, sv.take(i as int)),
        decreases sigs@.len() - i,
    {
        let ghost done = link_views(links@);
        assert(sv.take(i + 1).drop_last() =~= sv.take(i as int));
        assert(sv.take(i + 1).last() == sigs@[i as int]@);
        let sig: &FileSignature = &sigs[i];
        let w: Vec<char> = chars_of(sig.stem.as_str());
        if has_word_in(line, w.as_slice()) && !any_import_to(links, sig.path.as_str()) {
            links.push(
                ImpactLink {
                    target: text_of(sig.path.as_str()),
                    kind: text_of("import"),
                    matched: text_of(sig.stem.as_str()),
                },
            );
            assert(link_views(links@) =~= done.push(
                LinkV { target: sig.path@, kind: "import"@, matched: sig.stem@ },
            ));
        }
        i += 1;
    }
    assert(sv.take(i as int) =~= sv);
}

fn find_mention(content: &[char], symbols: &Vec<String>) -> (r: Option<String>)
    ensures
        crate::text::opt_view(r) == mentioned(content@, views(symbols@), 0),
{
    let ghost sv = views(symbols@);
    let mut i: usize = 0;
    while i < symbols.len()
        invariant
            i <= symbols@.len(),
            sv == views(symbols@),
            mentioned(content@, sv, 0) == mentioned(content@, sv, i as int),
        decreases symbols@.len() - i,
    {
        assert(sv[i as int] == symbols@[i as int]@);
        let w: Vec<char> = chars_of(symbols[i].as_str());
        if has_word_in(content, w.as_slice()) {
            return Some(text_of(symbols[i].as_str()));
        }
        i += 1;
    }
    None
}

/// All links from one candidate file to the given signatures.
pub fn scan_for_links(content: &str, signatures: &Vec<FileSignature>) -> (r: Vec<ImpactLink>)
    ensures
        link_views(r@) == links_of(content@, signature_views(signatures@)),
{
    let s: Vec<char> = chars_of(content);
    let ls: Vec<Vec<char>> = lines_of(s.as_slice());
    let ghost lv = char_views(ls@);
    let ghost sv = signature_views(signatures@);
    let mut links: Vec<ImpactLink> = Vec::new();
    let mut i: usize = 0;
    assert(link_views(links@) =~= import_links(lv.take(0), sv));
    while i < ls.len()
        invariant
            i <= ls@.len(),
            lv == char_views(ls@),
            sv == signature_views(signatures@),
            link_views(links@) == import_links(lv.take(i as int), sv),
        decreases ls@.len() - i,
    {
        assert(lv.take(i + 1).drop_last() =~= lv.take(i as int));
        assert(lv.take(i + 1).last() == ls@[i as int]@);
        let line: &[char] = trimmed_start(ls[i].as_slice());
        if is_import_line(line) {
            scan_import_line(&mut links, line, signatures);
        }
        i += 1;
    }
    assert(lv.take(i as int) =~= lv);
    let ghost imports = link_views(links@);
    let mut i: usize = 0;
    assert(sv.take(0) =~= seq![]);
    while i < signatures.len()
        invariant
            i <= signatures@.len(),
            s@ == content@,
            sv == signature_views(signatures@),
            link_views(links@) == with_references(imports, content@, sv.take(i as int)),
        decreases signatures@.len() - i,
    {
        let ghost done = link_views(links@);
        assert(sv.take(i + 1).drop_last() =~= sv.take(i as int));
        assert(sv.take(i + 1).last() == signatures@[i as int]@);
        let sig: &FileSignature = &signatures[i];
        // Already linked via import; symbols add nothing.
        if !any_link_to(&links, sig.path.as_str()) {
            match find_mention(s.as_slice(), &sig.symbols) {
                Some(symbol) => {
                    let ghost m = symbol@;
                    links.push(
                        ImpactLink {
                            target: text_of(sig.path.as_str()),
                            kind: text_of("reference"),
                            matched: symbol,
                        },
                    );
                    assert(link_views(links@) =~= done.push(
                        LinkV { target: sig.path@, kind: "reference"@, matched: m },
                    ));
                },
                None => {},
            }
        }
        i += 1;
    }
    assert(sv.take(i as int) =~= sv);
    links
}

// ---------------------------------------------------------------------------
// The report
// ---------------------------------------------------------------------------

#[derive(Debug)]
pub struct ImpactedFile {
    pub path: String,
    /// 1 = references a changed file directly; 2 = imports a ring-1 file.
    pub distance: u8,
    /// Strongest link: `"import"` beats `"reference"`.
    pub kind: String,
    pub links: Vec<ImpactLink>,
}

#[verifier::ext_equal]
pub struct ImpactedV {
    pub path: Seq<char>,
    pub distance: u8,
    pub kind: Seq<char>,
    pub links: Seq<LinkV>,
}

impl View for ImpactedFile {
    type V = ImpactedV;

    open spec fn view(&self) -> ImpactedV {
        ImpactedV {
            path: self.path@,
            distance: self.distance,
            kind: self.kind@,
            links: link_views(self.links@),
        }
    }
}

pub open spec fn impacted_views(s: Seq<ImpactedFile>) -> Seq<ImpactedV> {
    s.map_values(|x: ImpactedFile| x@)
}

/// The blast radius of a branch's current diff.
#[derive(Debug)]
pub struct ImpactReport {
    pub branch: String,
    /// Changed source files whose signatures were searched for.
    pub analyzed: Vec<String>,
    /// Changed files skipped (non-source extension, or over the analysis cap).
    pub skipped: Vec<String>,
    /// Files outside the diff that reference the changed ones, strongest first.
    pub impacted: Vec<ImpactedFile>,
    /// How many candidate files were actually scanned.
    pub scanned: usize,
    /// True when any cap was hit — the radius may be wider than reported.
    pub truncated: bool,
}

impl Ranked for ImpactLink {
    /// Imports first, then by target.
    open spec fn in_order(a: LinkV, b: LinkV) -> bool {
        if a.kind == "import"@ && b.kind != "import"@ {
            true
        } else if a.kind != "import"@ && b.kind == "import"@ {
            false
        } else {
            !before(b.target, a.target)
        }
    }

    fn may_precede(&self, other: &Self) -> bool {
        let mine: bool = same_text(self.kind.as_str(), "import");
        let theirs: bool = same_text(other.kind.as_str(), "import");
        if mine != theirs {
            mine
        } else {
            !text_before(other.target.as_str(), self.target.as_str())
        }
    }
}

impl Ranked for ImpactedFile {
    /// Strongest first: ring 1 imports, ring 1 references, then ring 2; by path within.
    open spec fn in_order(a: ImpactedV, b: ImpactedV) -> bool {
        if a.distance != b.distance {
            a.distance < b.distance
        } else if a.kind == "import"@ && b.kind != "import"@ {
            true
        } else if a.kind != "import"@ && b.kind == "import"@ {
            false
        } else {
            !before(b.path, a.path)
        }
    }

    fn may_precede(&self, other: &Self) -> bool {
        if self.distance != other.distance {
            return self.distance < other.distance;
        }
        let mine: bool = same_text(self.kind.as_str(), "import");
        let theirs: bool = same_text(other.kind.as_str(), "import");
        if mine != theirs {
            mine
        } else {
            !text_before(other.path.as_str(), self.path.as_str())
        }
    }
}

pub open spec fn any_import(links: Seq<LinkV>) -> bool {
    exists|i: int| 0 <= i < links.len() && (#[trigger] links[i]).kind == "import"@
}

pub open spec fn capped<V>(s: Seq<V>, n: int) -> Seq<V> {
    if s.len() > n {
        s.subrange(0, n)
    } else {
        s
    }
}

/// The entry of a file: its links, imports first so the strongest evidence survives the
/// cap.
pub open spec fn impacted_of(path: Seq<char>, distance: u8, links: Seq<LinkV>) -> ImpactedV {
    let ordered = deduped(sorted::<ImpactLink>(links));
    ImpactedV {
        path,
        distance,
        kind: if any_import(ordered) {
            "import"@
        } else {
            "reference"@
        },
        links: capped(ordered, MAX_LINKS_PER_FILE as int),
    }
}

/// Whether a file has more links than its entry names.
pub open spec fn links_cut(links: Seq<LinkV>) -> bool {
    deduped(sorted::<ImpactLink>(links)).len() > MAX_LINKS_PER_FILE
}

fn same_link(a: &ImpactLink, b: &ImpactLink) -> (r: bool)
    ensures
        r == (a@ == b@),
{
    let r: bool = same_text(a.target.as_str(), b.target.as_str()) && same_text(
        a.kind.as_str(),
        b.kind.as_str(),
    ) && same_text(a.matched.as_str(), b.matched.as_str());
    r
}

fn copy_link(l: &ImpactLink) -> (r: ImpactLink)
    ensures
        r@ == l@,
{
    ImpactLink {
        target: text_of(l.target.as_str()),
        kind: text_of(l.kind.as_str()),
        matched: text_of(l.matched.as_str()),
    }
}

pub fn build_impacted(path: &str, distance: u8, links: Vec<ImpactLink>) -> (r: ImpactedFile)
    ensures
        r@ == impacted_of(path@, distance, link_views(links@)),
{
    let (entry, _) = entry_of(path, distance, links);
    entry
}

/// The entry of a file, and whether it had to leave links out.
fn entry_of(path: &str, distance: u8, links: Vec<ImpactLink>) -> (r: (ImpactedFile, bool))
    ensures
        r.0@ == impacted_of(path@, distance, link_views(links@)),
        r.1 == links_cut(link_views(links@)),
{
    assert(item_views(links@) =~= link_views(links@));
    let ordered: Vec<ImpactLink> = sort_ranked(links);
    let ghost ov = link_views(ordered@);
    assert(item_views(ordered@) =~= ov);
    let mut kept: Vec<ImpactLink> = Vec::new();
    let mut import: bool = false;
    let mut i: usize = 0;
    assert(link_views(kept@) =~= deduped(ov.take(0)));
    while i < ordered.len()
        invariant
            i <= ordered@.len(),
            ov == link_views(ordered@),
            link_views(kept@) == deduped(ov.take(i as int)),
            import == any_import(link_views(kept@)),
        decreases ordered@.len() - i,
    {
        let ghost done = link_views(kept@);
        assert(ov.take(i + 1).drop_last() =~= ov.take(i as int));
        assert(ov.take(i + 1).last() == ordered@[i as int]@);
        let repeated: bool = if kept.len() > 0 {
            assert(done.last() == kept@[kept@.len() - 1]@);
            same_link(&kept[kept.len() - 1], &ordered[i])
        } else {
            false
        };
        if !repeated {
            let l: ImpactLink = copy_link(&ordered[i]);
            let ghost lv = l@;
            if same_text(l.kind.as_str(), "import") {
                import = true;
            }
            kept.push(l);
            assert(link_views(kept@) =~= done.push(lv));
            proof {
                let after = done.push(lv);
                if any_import(done) {
                    let k = choose|k: int| 0 <= k < done.len() && (#[trigger] done[k]).kind
                        == "import"@;
                    assert(after[k].kind == "import"@);
                }
                if any_import(after) {
                    let k = choose|k: int| 0 <= k < after.len() && (#[trigger] after[k]).kind
                        == "import"@;
                    if k < done.len() {
                        assert(done[k].kind == "import"@);
                    }
                }
                assert(after[done.len() as int] == lv);
            }
        }
        i += 1;
    }
    assert(ov.take(i as int) =~= ov);
    let ghost all = link_views(kept@);
    let cut: bool = kept.len() > MAX_LINKS_PER_FILE;
    assert(cut == (all.len() > MAX_LINKS_PER_FILE));
    kept.truncate(MAX_LINKS_PER_FILE);
    assert(link_views(kept@) =~= capped(all, MAX_LINKS_PER_FILE as int));
    let entry: ImpactedFile = ImpactedFile {
        path: text_of(path),
        distance,
        kind: if import {
            text_of("import")
        } else {
            text_of("reference")
        },
        links: kept,
    };
    (entry, cut)
}

/// A file and its text, where it has any that can be scanned.
#[derive(Debug)]
pub struct ScannedFile {
    pub path: String,
    pub content: Option<String>,
    /// There is no text because the file is over the size cap.
    pub too_large: bool,
}

#[verifier::ext_equal]
pub struct ScannedV {
    pub path: Seq<char>,
    pub content: Option<Seq<char>>,
    pub too_large: bool,
}

impl View for ScannedFile {
    type V = ScannedV;

    open spec fn view(&self) -> ScannedV {
        ScannedV {
            path: self.path@,
            content: crate::text::opt_view(self.content),
            too_large: self.too_large,
        }
    }
}

pub open spec fn scanned_views(s: Seq<ScannedFile>) -> Seq<ScannedV> {
    s.map_values(|x: ScannedFile| x@)
}

/// A file of `bytes` bytes as it is scanned: without text when it is missing, unreadable
/// (`content` is `None`), too large or binary — each of those just means "skip it", never an
/// error.
pub fn scannable(path: String, bytes: u64, content: Option<String>) -> (r: ScannedFile)
    ensures
        r@ == (ScannedV {
            path: path@,
            content: match crate::text::opt_view(content) {
                Some(c) => if bytes > MAX_FILE_BYTES || c.contains('\0') {
                    None
                } else {
                    Some(c)
                },
                None => None,
            },
            too_large: bytes > MAX_FILE_BYTES,
        }),
{
    if bytes > MAX_FILE_BYTES {
        return ScannedFile { path, content: None, too_large: true };
    }
    match content {
        Some(content) => {
            let s: Vec<char> = chars_of(content.as_str());
            proof {
                lemma_next_char(content@, '\0', 0);
            }
            let at: usize = find_char(s.as_slice(), '\0', 0);
            if at < s.len() {
                assert(content@[at as int] == '\0');
                ScannedFile { path, content: None, too_large: false }
            } else {
                assert(!content@.contains('\0')) by {
                    if content@.contains('\0') {
                        let k = choose|k: int| 0 <= k < content@.len() && content@[k] == '\0';
                        assert(content@[k] != '\0');
                    }
                }
                ScannedFile { path, content: Some(content), too_large: false }
            }
        },
        None => ScannedFile { path, content: None, too_large: false },
    }
}

/// What the changed files come to.
pub struct ChangedV {
    pub analyzed: Seq<Seq<char>>,
    pub skipped: Seq<Seq<char>>,
    pub signatures: Seq<SignatureV>,
    pub truncated: bool,
}

/// The changed files: the signatures of the source files among them, as many as the cap
/// allows; cut short where there are more, or where one is too large or exports too much.
pub open spec fn changed_of(files: Seq<ScannedV>) -> ChangedV
    decreases files.len(),
{
    if files.len() == 0 {
        ChangedV { analyzed: seq![], skipped: seq![], signatures: seq![], truncated: false }
    } else {
        let c = changed_of(files.drop_last());
        let f = files.last();
        if !is_source(f.path) {
            ChangedV { skipped: c.skipped.push(f.path), ..c }
        } else if c.signatures.len() >= MAX_CHANGED_ANALYZED {
            ChangedV { skipped: c.skipped.push(f.path), truncated: true, ..c }
        } else {
            ChangedV {
                analyzed: c.analyzed.push(f.path),
                signatures: c.signatures.push(signature_of(f.path, f.content)),
                truncated: c.truncated || f.too_large || symbols_cut(f),
                ..c
            }
        }
    }
}

/// The tracked source files outside the diff.
pub open spec fn candidates_of(listed: Seq<Seq<char>>, changed: Seq<Seq<char>>) -> Seq<Seq<char>>
    decreases listed.len(),
{
    if listed.len() == 0 {
        seq![]
    } else {
        let before = candidates_of(listed.drop_last(), changed);
        if is_source(listed.last()) && !changed.contains(listed.last()) {
            before.push(listed.last())
        } else {
            before
        }
    }
}

/// The files worth scanning, and whether there were too many.
#[derive(Debug)]
pub struct Candidates {
    pub paths: Vec<String>,
    pub truncated: bool,
}

/// Candidate files: everything tracked, minus the diff itself.
pub fn select_candidates(listed: &Vec<String>, changed: &Vec<String>) -> (r: Candidates)
    ensures
        ({
            let all = candidates_of(views(listed@), views(changed@));
            &&& views(r.paths@) == capped(all, MAX_CANDIDATES as int)
            &&& r.truncated == (all.len() > MAX_CANDIDATES)
        }),
{
    let ghost tv = views(listed@);
    let mut paths: Vec<String> = Vec::new();
    let mut i: usize = 0;
    assert(views(paths@) =~= candidates_of(tv.take(0), views(changed@)));
    while i < listed.len()
        invariant
            i <= listed@.len(),
            tv == views(listed@),
            views(paths@) == candidates_of(tv.take(i as int), views(changed@)),
        decreases listed@.len() - i,
    {
        let ghost done = views(paths@);
        assert(tv.take(i + 1).drop_last() =~= tv.take(i as int));
        assert(tv.take(i + 1).last() == listed@[i as int]@);
        if is_source_file(listed[i].as_str()) && !has_text(changed, listed[i].as_str()) {
            paths.push(text_of(listed[i].as_str()));
            assert(views(paths@) =~= done.push(listed@[i as int]@));
        }
        i += 1;
    }
    assert(tv.take(i as int) =~= tv);
    let ghost all = views(paths@);
    let truncated: bool = paths.len() > MAX_CANDIDATES;
    paths.truncate(MAX_CANDIDATES);
    assert(views(paths@) =~= capped(all, MAX_CANDIDATES as int));
    Candidates { paths, truncated }
}

/// A ring as far as it was computed.
pub struct RingV {
    pub impacted: Seq<ImpactedV>,
    pub scanned: nat,
    /// The result cap was hit: no file after that one was looked at.
    pub full: bool,
    /// Some entry had to leave links out.
    pub cut: bool,
}

/// Ring 1: every candidate held against the changed files' signatures.
pub open spec fn ring_one(files: Seq<ScannedV>, sigs: Seq<SignatureV>) -> RingV
    decreases files.len(),
{
    if files.len() == 0 {
        RingV { impacted: seq![], scanned: 0, full: false, cut: false }
    } else {
        let r = ring_one(files.drop_last(), sigs);
        let f = files.last();
        match f.content {
            Some(content) => if r.full {
                r
            } else {
                let links = links_of(content, sigs);
                if links.len() == 0 {
                    RingV { scanned: r.scanned + 1, ..r }
                } else {
                    let impacted = r.impacted.push(impacted_of(f.path, 1, links));
                    RingV {
                        impacted,
                        scanned: r.scanned + 1,
                        full: impacted.len() >= MAX_IMPACTED,
                        cut: r.cut || links_cut(links),
                    }
                }
            },
            None => r,
        }
    }
}

/// The signatures of the ring-1 files that import a changed one.
pub open spec fn importer_signatures(impacted: Seq<ImpactedV>) -> Seq<SignatureV>
    decreases impacted.len(),
{
    if impacted.len() == 0 {
        seq![]
    } else {
        let before = importer_signatures(impacted.drop_last());
        if impacted.last().kind == "import"@ {
            before.push(signature_of(impacted.last().path, None))
        } else {
            before
        }
    }
}

pub open spec fn imports_only(links: Seq<LinkV>) -> Seq<LinkV>
    decreases links.len(),
{
    if links.len() == 0 {
        seq![]
    } else if links.last().kind == "import"@ {
        imports_only(links.drop_last()).push(links.last())
    } else {
        imports_only(links.drop_last())
    }
}

pub open spec fn has_path(impacted: Seq<ImpactedV>, path: Seq<char>) -> bool {
    exists|i: int| 0 <= i < impacted.len() && (#[trigger] impacted[i]).path == path
}

/// Ring 2: who imports the ring-1 files (import links only — symbol mentions two hops out
/// are almost always noise). `ring` is what ring 1 came to.
pub open spec fn ring_two(files: Seq<ScannedV>, sigs: Seq<SignatureV>, ring: RingV) -> RingV
    decreases files.len(),
{
    if files.len() == 0 {
        ring
    } else {
        let r = ring_two(files.drop_last(), sigs, ring);
        let f = files.last();
        match f.content {
            Some(content) => if r.full || has_path(ring.impacted, f.path) {
                r
            } else {
                let links = imports_only(links_of(content, sigs));
                if links.len() == 0 {
                    r
                } else {
                    let impacted = r.impacted.push(impacted_of(f.path, 2, links));
                    RingV {
                        impacted,
                        full: impacted.len() >= MAX_IMPACTED,
                        cut: r.cut || links_cut(links),
                        ..r
                    }
                }
            },
            None => r,
        }
    }
}

/// Whether one of the files is over the size cap.
pub open spec fn some_too_large(files: Seq<ScannedV>) -> bool {
    exists|i: int| 0 <= i < files.len() && (#[trigger] files[i]).too_large
}

pub struct ReportV {
    pub analyzed: Seq<Seq<char>>,
    pub skipped: Seq<Seq<char>>,
    pub impacted: Seq<ImpactedV>,
    pub scanned: nat,
    pub truncated: bool,
}

/// The blast radius of the changed files among the candidates. It is cut short where any of
/// the caps was hit.
pub open spec fn report_of(
    changed: Seq<ScannedV>,
    candidates: Seq<ScannedV>,
    truncated: bool,
) -> ReportV {
    let c = changed_of(changed);
    if c.signatures.len() == 0 {
        ReportV {
            analyzed: c.analyzed,
            skipped: c.skipped,
            impacted: seq![],
            scanned: 0,
            truncated: c.truncated,
        }
    } else {
        let one = ring_one(candidates, c.signatures);
        let sigs = importer_signatures(one.impacted);
        let both = if sigs.len() > 0 && one.impacted.len() < MAX_IMPACTED {
            ring_two(candidates, sigs, one)
        } else {
            one
        };
        ReportV {
            analyzed: c.analyzed,
            skipped: c.skipped,
            impacted: sorted::<ImpactedFile>(both.impacted),
            scanned: both.scanned,
            truncated: c.truncated || truncated || both.full || both.cut || some_too_large(
                candidates,
            ),
        }
    }
}

#[derive(Debug)]
pub struct ImpactManager {}

/// What the changed files come to.
#[derive(Debug)]
struct Changed {
    analyzed: Vec<String>,
    skipped: Vec<String>,
    signatures: Vec<FileSignature>,
    truncated: bool,
}

fn analyze_changed(files: &Vec<ScannedFile>) -> (r: Changed)
    ensures
        ({
            let c = changed_of(scanned_views(files@));
            &&& views(r.analyzed@) == c.analyzed
            &&& views(r.skipped@) == c.skipped
            &&& signature_views(r.signatures@) == c.signatures
            &&& r.truncated == c.truncated
        }),
{
    let ghost fv = scanned_views(files@);
    let mut analyzed: Vec<String> = Vec::new();
    let mut skipped: Vec<String> = Vec::new();
    let mut signatures: Vec<FileSignature> = Vec::new();
    let mut truncated: bool = false;
    let mut i: usize = 0;
    assert(views(analyzed@) =~= seq![]);
    assert(views(skipped@) =~= seq![]);
    assert(signature_views(signatures@) =~= seq![]);
    while i < files.len()
        invariant
            i <= files@.len(),
            fv == scanned_views(files@),
            ({
                let c = changed_of(fv.take(i as int));
                &&& views(analyzed@) == c.analyzed
                &&& views(skipped@) == c.skipped
                &&& signature_views(signatures@) == c.signatures
                &&& truncated == c.truncated
            }),
        decreases files@.len() - i,
    {
        assert(fv.take(i + 1).drop_last() =~= fv.take(i as int));
        assert(fv.take(i + 1).last() == files@[i as int]@);
        let ghost a = views(analyzed@);
        let ghost k = views(skipped@);
        let ghost g = signature_views(signatures@);
        let path: &str = files[i].path.as_str();
        if !is_source_file(path) {
            skipped.push(text_of(path));
            assert(views(skipped@) =~= k.push(path@));
        } else if signatures.len() >= MAX_CHANGED_ANALYZED {
            truncated = true;
            skipped.push(text_of(path));
            assert(views(skipped@) =~= k.push(path@));
        } else {
            // A deleted file has no content on disk; its stem still matters — anything
            // still importing it is exactly what broke.
            let sig: FileSignature = match &files[i].content {
                Some(c) => derive_signature(path, Some(c.as_str())),
                None => derive_signature(path, None),
            };
            let ghost sv = sig@;
            signatures.push(sig);
            assert(signature_views(signatures@) =~= g.push(sv));
            truncated = truncated || files[i].too_large || has_more_symbols(&files[i]);
            analyzed.push(text_of(path));
            assert(views(analyzed@) =~= a.push(path@));
        }
        i += 1;
    }
    assert(fv.take(i as int) =~= fv);
    Changed { analyzed, skipped, signatures, truncated }
}

fn holds_path(impacted: &Vec<ImpactedFile>, upto: usize, path: &str) -> (b: bool)
    requires
        upto <= impacted@.len(),
    ensures
        b == has_path(impacted_views(impacted@).take(upto as int), path@),
{
    let ghost iv = impacted_views(impacted@);
    let mut i: usize = 0;
    while i < upto
        invariant
            i <= upto <= impacted@.len(),
            iv == impacted_views(impacted@),
            forall|k: int| 0 <= k < i ==> (#[trigger] iv[k]).path != path@,
        decreases upto - i,
    {
        assert(iv[i as int] == impacted@[i as int]@);
        if same_text(impacted[i].path.as_str(), path) {
            assert(iv.take(upto as int)[i as int].path == path@);
            return true;
        }
        i += 1;
    }
    assert forall|k: int| 0 <= k < upto implies (#[trigger] iv.take(upto as int)[k]).path
        != path@ by {
        assert(iv[k].path != path@);
    }
    false
}

fn keep_imports(links: Vec<ImpactLink>) -> (r: Vec<ImpactLink>)
    ensures
        link_views(r@) == imports_only(link_views(links@)),
{
    let ghost lv = link_views(links@);
    let mut r: Vec<ImpactLink> = Vec::new();
    let mut i: usize = 0;
    assert(link_views(r@) =~= imports_only(lv.take(0)));
    while i < links.len()
        invariant
            i <= links@.len(),
            lv == link_views(links@),
            link_views(r@) == imports_only(lv.take(i as int)),
        decreases links@.len() - i,
    {
        let ghost done = link_views(r@);
        assert(lv.take(i + 1).drop_last() =~= lv.take(i as int));
        assert(lv.take(i + 1).last() == links@[i as int]@);
        if same_text(links[i].kind.as_str(), "import") {
            r.push(copy_link(&links[i]));
            assert(link_views(r@) =~= done.push(links@[i as int]@));
        }
        i += 1;
    }
    assert(lv.take(i as int) =~= lv);
    r
}

proof fn lemma_too_large(files: Seq<ScannedV>)
    requires
        files.len() > 0,
    ensures
        some_too_large(files) == (some_too_large(files.drop_last()) || files.last().too_large),
{
    let d = files.drop_last();
    if some_too_large(d) {
        let i = choose|i: int| 0 <= i < d.len() && (#[trigger] d[i]).too_large;
        assert(files[i].too_large);
    }
    if some_too_large(files) {
        let i = choose|i: int| 0 <= i < files.len() && (#[trigger] files[i]).too_large;
        if i < d.len() {
            assert(d[i].too_large);
        }
    }
}

impl ImpactManager {
    /// Analyze the blast radius of `branch`'s working-tree diff: `changed` are the files of
    /// the diff, `candidates` the tracked source files outside it (see
    /// [`select_candidates`], which also says whether there were more of them).
    pub fn analyze(
        branch: &str,
        changed: &Vec<ScannedFile>,
        candidates: &Vec<ScannedFile>,
        truncated: bool,
    ) -> (r: ImpactReport)
        ensures
            r.branch@ == branch@,
            ({
                let v = report_of(
                    scanned_views(changed@),
                    scanned_views(candidates@),
                    truncated,
                );
                &&& views(r.analyzed@) == v.analyzed
                &&& views(r.skipped@) == v.skipped
                &&& impacted_views(r.impacted@) == v.impacted
                &&& r.scanned == v.scanned
                &&& r.truncated == v.truncated
            }),
    {
        let c: Changed = analyze_changed(changed);
        let ghost cv = scanned_views(candidates@);
        let ghost sigs = signature_views(c.signatures@);
        if c.signatures.len() == 0 {
            let impacted: Vec<ImpactedFile> = Vec::new();
            assert(impacted_views(impacted@) =~= seq![]);
            return ImpactReport {
                branch: text_of(branch),
                analyzed: c.analyzed,
                skipped: c.skipped,
                impacted,
                scanned: 0,
                truncated: c.truncated,
            };
        }
        // Ring 1: scan every candidate against the changed files' signatures.
        let mut impacted: Vec<ImpactedFile> = Vec::new();
        let mut scanned: usize = 0;
        let mut full: bool = false;
        let mut cut: bool = false;
        let mut oversized: bool = false;
        let mut i: usize = 0;
        assert(impacted_views(impacted@) =~= seq![]);
        while i < candidates.len()
            invariant
                i <= candidates@.len(),
                scanned <= i,
                cv == scanned_views(candidates@),
                sigs == signature_views(c.signatures@),
                ({
                    let r = ring_one(cv.take(i as int), sigs);
                    &&& impacted_views(impacted@) == r.impacted
                    &&& scanned == r.scanned
                    &&& full == r.full
                    &&& cut == r.cut
                }),
                oversized == some_too_large(cv.take(i as int)),
            decreases candidates@.len() - i,
        {
            assert(cv.take(i + 1).drop_last() =~= cv.take(i as int));
            assert(cv.take(i + 1).last() == candidates@[i as int]@);
            let ghost done = impacted_views(impacted@);
            proof {
                lemma_too_large(cv.take(i + 1));
            }
            oversized = oversized || candidates[i].too_large;
            match &candidates[i].content {
                Some(content) => {
                    if !full {
                        scanned += 1;
                        let links: Vec<ImpactLink> = scan_for_links(
                            content.as_str(),
                            &c.signatures,
                        );
                        assert(link_views(links@).len() == links@.len());
                        if links.len() > 0 {
                            let (f, short) = entry_of(candidates[i].path.as_str(), 1, links);
                            let ghost f_view = f@;
                            impacted.push(f);
                            assert(impacted_views(impacted@) =~= done.push(f_view));
                            full = impacted.len() >= MAX_IMPACTED;
                            cut = cut || short;
                        }
                    }
                },
                None => {},
            }
            i += 1;
        }
        assert(cv.take(i as int) =~= cv);
        let ghost one = ring_one(cv, sigs);
        let ghost ring = one.impacted;
        // Ring 2: who imports the ring-1 files.
        let first: usize = impacted.len();
        let mut importers: Vec<FileSignature> = Vec::new();
        let mut i: usize = 0;
        assert(signature_views(importers@) =~= importer_signatures(ring.take(0)));
        while i < impacted.len()
            invariant
                i <= impacted@.len(),
                ring == impacted_views(impacted@),
                signature_views(importers@) == importer_signatures(ring.take(i as int)),
            decreases impacted@.len() - i,
        {
            assert(ring.take(i + 1).drop_last() =~= ring.take(i as int));
            assert(ring.take(i + 1).last() == impacted@[i as int]@);
            let ghost done = signature_views(importers@);
            if same_text(impacted[i].kind.as_str(), "import") {
                let sig: FileSignature = derive_signature(impacted[i].path.as_str(), None);
                let ghost sv = sig@;
                importers.push(sig);
                assert(signature_views(importers@) =~= done.push(sv));
            }
            i += 1;
        }
        assert(ring.take(i as int) =~= ring);
        let ghost isigs = signature_views(importers@);
        if importers.len() > 0 && impacted.len() < MAX_IMPACTED {
            let mut i: usize = 0;
            assert(ring.take(first as int) =~= ring);
            while i < candidates.len()
                invariant
                    i <= candidates@.len(),
                    cv == scanned_views(candidates@),
                    isigs == signature_views(importers@),
                    first <= impacted@.len(),
                    ring == impacted_views(impacted@).take(first as int),
                    ring == one.impacted,
                    ({
                        let r = ring_two(cv.take(i as int), isigs, one);
                        &&& impacted_views(impacted@) == r.impacted
                        &&& scanned == r.scanned
                        &&& full == r.full
                        &&& cut == r.cut
                    }),
                decreases candidates@.len() - i,
            {
                assert(cv.take(i + 1).drop_last() =~= cv.take(i as int));
                assert(cv.take(i + 1).last() == candidates@[i as int]@);
                let ghost done = impacted_views(impacted@);
                match &candidates[i].content {
                    Some(content) => {
                        if !full && !holds_path(&impacted, first, candidates[i].path.as_str()) {
                            let links: Vec<ImpactLink> = keep_imports(
                                scan_for_links(content.as_str(), &importers),
                            );
                            assert(link_views(links@).len() == links@.len());
                            if links.len() > 0 {
                                let (f, short) = entry_of(
                                    candidates[i].path.as_str(),
                                    2,
                                    links,
                                );
                                let ghost f_view = f@;
                                impacted.push(f);
                                assert(impacted_views(impacted@) =~= done.push(f_view));
                                assert(impacted_views(impacted@).take(first as int) =~= ring);
                                full = impacted.len() >= MAX_IMPACTED;
                                cut = cut || short;
                            }
                        }
                    },
                    None => {},
                }
                i += 1;
            }
            assert(cv.take(i as int) =~= cv);
        }
        assert(item_views(impacted@) =~= impacted_views(impacted@));
        let ordered: Vec<ImpactedFile> = sort_ranked(impacted);
        assert(item_views(ordered@) =~= impacted_views(ordered@));
        ImpactReport {
            branch: text_of(branch),
            analyzed: c.analyzed,
            skipped: c.skipped,
            impacted: ordered,
            scanned,
            truncated: c.truncated || truncated || full || cut || oversized,
        }
    }
}

// ---------------------------------------------------------------------------
// Laws
// ---------------------------------------------------------------------------

/// Whether one of the files has this path.
pub open spec fn is_path_of(files: Seq<ScannedV>, path: Seq<char>) -> bool {
    exists|k: int| 0 <= k < files.len() && (#[trigger] files[k]).path == path
}

/// Whether every entry is of one of the files.
pub open spec fn from_files(impacted: Seq<ImpactedV>, files: Seq<ScannedV>) -> bool {
    forall|i: int|
        0 <= i < impacted.len() ==> is_path_of(files, (#[trigger] impacted[i]).path)
}

proof fn lemma_from_more(impacted: Seq<ImpactedV>, files: Seq<ScannedV>, more: Seq<ScannedV>)
    requires
        from_files(impacted, files),
        files.len() <= more.len(),
        more.take(files.len() as int) == files,
    ensures
        from_files(impacted, more),
{
    assert forall|i: int| 0 <= i < impacted.len() implies is_path_of(
        more,
        (#[trigger] impacted[i]).path,
    ) by {
        let k = choose|k: int|
            0 <= k < files.len() && (#[trigger] files[k]).path == impacted[i].path;
        assert(more.take(files.len() as int)[k] == more[k]);
        assert(more[k].path == impacted[i].path);
    }
}

proof fn lemma_from_push(impacted: Seq<ImpactedV>, files: Seq<ScannedV>, e: ImpactedV)
    requires
        files.len() > 0,
        from_files(impacted, files.drop_last()),
        e.path == files.last().path,
    ensures
        from_files(impacted.push(e), files),
{
    lemma_from_more(impacted, files.drop_last(), files);
    let p = impacted.push(e);
    assert forall|i: int| 0 <= i < p.len() implies is_path_of(
        files,
        (#[trigger] p[i]).path,
    ) by {
        if i < impacted.len() {
            assert(p[i] == impacted[i]);
        } else {
            assert(files[files.len() - 1].path == p[i].path);
        }
    }
}

proof fn lemma_ring_one(files: Seq<ScannedV>, sigs: Seq<SignatureV>)
    ensures
        from_files(ring_one(files, sigs).impacted, files),
        ring_one(files, sigs).impacted.len() <= MAX_IMPACTED,
        ring_one(files, sigs).impacted.len() == MAX_IMPACTED ==> ring_one(files, sigs).full,
        ring_one(files, sigs).scanned <= files.len(),
    decreases files.len(),
{
    if files.len() > 0 {
        let d = files.drop_last();
        lemma_ring_one(d, sigs);
        assert(files.take(d.len() as int) =~= d);
        lemma_from_more(ring_one(d, sigs).impacted, d, files);
        match files.last().content {
            Some(content) => {
                lemma_from_push(
                    ring_one(d, sigs).impacted,
                    files,
                    impacted_of(files.last().path, 1, links_of(content, sigs)),
                );
            },
            None => {},
        }
    }
}

proof fn lemma_ring_two(files: Seq<ScannedV>, sigs: Seq<SignatureV>, ring: RingV, all: Seq<ScannedV>)
    requires
        from_files(ring.impacted, all),
        ring.impacted.len() < MAX_IMPACTED,
        files.len() <= all.len(),
        all.take(files.len() as int) == files,
    ensures
        from_files(ring_two(files, sigs, ring).impacted, all),
        ring_two(files, sigs, ring).impacted.len() <= MAX_IMPACTED,
        ring_two(files, sigs, ring).impacted.len() == MAX_IMPACTED ==> ring_two(
            files,
            sigs,
            ring,
        ).full,
        ring_two(files, sigs, ring).scanned == ring.scanned,
    decreases files.len(),
{
    if files.len() > 0 {
        let d = files.drop_last();
        assert(all.take(d.len() as int) =~= d);
        lemma_ring_two(d, sigs, ring, all);
        let impacted = ring_two(d, sigs, ring).impacted;
        match files.last().content {
            Some(content) => {
                let links = imports_only(links_of(content, sigs));
                let e = impacted_of(files.last().path, 2, links);
                let p = impacted.push(e);
                assert forall|i: int| 0 <= i < p.len() implies is_path_of(
                    all,
                    (#[trigger] p[i]).path,
                ) by {
                    if i < impacted.len() {
                        assert(p[i] == impacted[i]);
                    } else {
                        assert(all.take(files.len() as int)[files.len() - 1] == all[files.len()
                            - 1]);
                        assert(all[files.len() - 1].path == p[i].path);
                    }
                }
            },
            None => {},
        }
    }
}

/// The report is bounded, names only candidates, and lists the strongest first.
pub proof fn the_report_is_bounded_and_ordered(
    changed: Seq<ScannedV>,
    candidates: Seq<ScannedV>,
    truncated: bool,
)
    ensures
        ({
            let r = report_of(changed, candidates, truncated);
            &&& r.impacted.len() <= MAX_IMPACTED
            &&& r.scanned <= candidates.len()
            &&& is_sorted::<ImpactedFile>(r.impacted)
            &&& from_files(r.impacted, candidates)
        }),
{
    let c = changed_of(changed);
    if c.signatures.len() > 0 {
        lemma_ring_one(candidates, c.signatures);
        let one = ring_one(candidates, c.signatures);
        let sigs = importer_signatures(one.impacted);
        let found = if sigs.len() > 0 && one.impacted.len() < MAX_IMPACTED {
            ring_two(candidates, sigs, one).impacted
        } else {
            one.impacted
        };
        assert(candidates.take(candidates.len() as int) =~= candidates);
        if sigs.len() > 0 && one.impacted.len() < MAX_IMPACTED {
            lemma_ring_two(candidates, sigs, one, candidates);
        }
        impacted_files_are_ranked();
        sorting_keeps_the_items_and_orders_them::<ImpactedFile>(found);
        lemma_sorted_from(found, candidates);
    } else {
        assert(is_sorted::<ImpactedFile>(seq![]));
    }
}

/// The direct links of a file, where it has a text.
pub open spec fn direct_links(f: ScannedV, sigs: Seq<SignatureV>) -> Seq<LinkV> {
    match f.content {
        Some(content) => links_of(content, sigs),
        None => seq![],
    }
}

proof fn lemma_changed_cut(files: Seq<ScannedV>, i: int)
    requires
        0 <= i < files.len(),
        is_source(files[i].path),
        files[i].too_large || symbols_cut(files[i]),
    ensures
        changed_of(files).truncated,
    decreases files.len(),
{
    let d = files.drop_last();
    if i < d.len() {
        assert(d[i] == files[i]);
        lemma_changed_cut(d, i);
    }
}

proof fn lemma_source_skipped(files: Seq<ScannedV>, i: int)
    requires
        0 <= i < changed_of(files).skipped.len(),
        is_source(changed_of(files).skipped[i]),
    ensures
        changed_of(files).truncated,
    decreases files.len(),
{
    let d = files.drop_last();
    if i < changed_of(d).skipped.len() {
        lemma_source_skipped(d, i);
    }
}

pub proof fn lemma_ring_one_cut(files: Seq<ScannedV>, sigs: Seq<SignatureV>, i: int)
    requires
        0 <= i < files.len(),
        links_cut(direct_links(files[i], sigs)),
    ensures
        ring_one(files, sigs).cut || ring_one(files, sigs).full,
    decreases files.len(),
{
    let d = files.drop_last();
    if i < d.len() {
        assert(d[i] == files[i]);
        lemma_ring_one_cut(d, sigs, i);
    } else if direct_links(files[i], sigs).len() == 0 {
        assert(sorted::<ImpactLink>(seq![]).len() == 0);
    }
}

proof fn lemma_ring_one_full(files: Seq<ScannedV>, sigs: Seq<SignatureV>)
    ensures
        ring_one(files, sigs).full ==> ring_one(files, sigs).impacted.len() >= MAX_IMPACTED,
    decreases files.len(),
{
    if files.len() > 0 {
        lemma_ring_one_full(files.drop_last(), sigs);
    }
}

proof fn lemma_ring_two_cut(files: Seq<ScannedV>, sigs: Seq<SignatureV>, ring: RingV)
    ensures
        ring.cut ==> ring_two(files, sigs, ring).cut,
    decreases files.len(),
{
    if files.len() > 0 {
        lemma_ring_two_cut(files.drop_last(), sigs, ring);
    }
}

/// The report says so whenever a cap was hit: on changed files, on candidates, on the size of
/// a file that counts, on the symbols of a changed file, on the entries, and on the direct
/// links of an entry.
pub proof fn a_cap_that_was_hit_is_told(
    changed: Seq<ScannedV>,
    candidates: Seq<ScannedV>,
    truncated: bool,
    i: int,
)
    requires
        changed_of(changed).signatures.len() > 0,
    ensures
        ({
            let sigs = changed_of(changed).signatures;
            let r = report_of(changed, candidates, truncated);
            &&& truncated ==> r.truncated
            &&& r.impacted.len() >= MAX_IMPACTED ==> r.truncated
            &&& 0 <= i < r.skipped.len() && is_source(r.skipped[i]) ==> r.truncated
            &&& 0 <= i < changed.len() && is_source(changed[i].path) && (changed[i].too_large
                || symbols_cut(changed[i])) ==> r.truncated
            &&& 0 <= i < candidates.len() && candidates[i].too_large ==> r.truncated
            &&& 0 <= i < candidates.len() && links_cut(direct_links(candidates[i], sigs))
                ==> r.truncated
        }),
{
    let c = changed_of(changed);
    let one = ring_one(candidates, c.signatures);
    let sigs = importer_signatures(one.impacted);
    lemma_ring_one(candidates, c.signatures);
    lemma_ring_one_full(candidates, c.signatures);
    let both = if sigs.len() > 0 && one.impacted.len() < MAX_IMPACTED {
        ring_two(candidates, sigs, one)
    } else {
        one
    };
    assert(candidates.take(candidates.len() as int) =~= candidates);
    if sigs.len() > 0 && one.impacted.len() < MAX_IMPACTED {
        lemma_ring_two(candidates, sigs, one, candidates);
        lemma_ring_two_cut(candidates, sigs, one);
    }
    impacted_files_are_ranked();
    sorting_keeps_the_items_and_orders_them::<ImpactedFile>(both.impacted);
    assert(from_files(both.impacted, candidates));
    lemma_sorted_from(both.impacted, candidates);
    if 0 <= i < c.skipped.len() && is_source(c.skipped[i]) {
        lemma_source_skipped(changed, i);
    }
    if 0 <= i < changed.len() && is_source(changed[i].path) && (changed[i].too_large
        || symbols_cut(changed[i])) {
        lemma_changed_cut(changed, i);
    }
    if 0 <= i < candidates.len() && links_cut(direct_links(candidates[i], c.signatures)) {
        lemma_ring_one_cut(candidates, c.signatures, i);
    }
}

proof fn lemma_sorted_from(found: Seq<ImpactedV>, files: Seq<ScannedV>)
    requires
        from_files(found, files),
        sorted::<ImpactedFile>(found).to_multiset() == found.to_multiset(),
    ensures
        from_files(sorted::<ImpactedFile>(found), files),
        sorted::<ImpactedFile>(found).len() == found.len(),
{
    broadcast use vstd::seq_lib::group_to_multiset_ensures;

    let s = sorted::<ImpactedFile>(found);
    assert(s.to_multiset().len() == s.len());
    assert(found.to_multiset().len() == found.len());
    assert forall|i: int| 0 <= i < s.len() implies is_path_of(
        files,
        (#[trigger] s[i]).path,
    ) by {
        assert(s.to_multiset().count(s[i]) > 0);
        assert(found.to_multiset().count(s[i]) > 0);
        assert(found.contains(s[i]));
        let j = choose|j: int| 0 <= j < found.len() && found[j] == s[i];
        let k = choose|k: int| 0 <= k < files.len() && (#[trigger] files[k]).path == found[j].path;
        assert(files[k].path == s[i].path);
    }
}

/// The order of the report is total.
pub proof fn impacted_files_are_ranked()
    ensures
        is_ranking::<ImpactedFile>(),
{
    assert forall|a: ImpactedV, b: ImpactedV| #[trigger]
        ImpactedFile::in_order(a, b) || ImpactedFile::in_order(b, a) by {
        lemma_before(a.path, b.path, b.path);
    }
    assert forall|a: ImpactedV, b: ImpactedV, c: ImpactedV| #[trigger]
        ImpactedFile::in_order(a, b) && #[trigger] ImpactedFile::in_order(b, c) implies
        ImpactedFile::in_order(a, c) by {
        lemma_before(a.path, b.path, c.path);
    }
}

proof fn lemma_candidates(listed: Seq<Seq<char>>, changed: Seq<Seq<char>>, i: int)
    requires
        0 <= i < candidates_of(listed, changed).len(),
    ensures
        !changed.contains(candidates_of(listed, changed)[i]),
        is_source(candidates_of(listed, changed)[i]),
    decreases listed.len(),
{
    let before = candidates_of(listed.drop_last(), changed);
    if i < before.len() {
        lemma_candidates(listed.drop_last(), changed, i);
    }
}

/// No file of the diff is a candidate, so none is reported as impacted by it.
pub proof fn changed_files_are_no_candidates(
    listed: Seq<Seq<char>>,
    changed: Seq<Seq<char>>,
    path: Seq<char>,
)
    requires
        changed.contains(path),
    ensures
        !capped(candidates_of(listed, changed), MAX_CANDIDATES as int).contains(path),
{
    let all = candidates_of(listed, changed);
    let c = capped(all, MAX_CANDIDATES as int);
    if c.contains(path) {
        let i = choose|i: int| 0 <= i < c.len() && c[i] == path;
        assert(all[i] == path);
        lemma_candidates(listed, changed, i);
    }
}

} // verus!
