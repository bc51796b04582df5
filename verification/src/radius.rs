//! What counts for a blast radius: which names a file exports, and that everything that names
//! one of them, or imports the file, is found.
use crate::impact::{
    after_word, candidates_of, changed_of, direct_links, exported, extension_of, file_stem,
    first_name, has_word, identifier_end, import_links, imports_target, impacted_files_are_ranked,
    impacted_of, importer_signatures, is_import, is_source, is_word_at, lemma_ring_one_cut,
    line_symbol, links_cut, links_target, mentioned, name_after, report_of, ring_one, ring_two,
    signature_of, skipping, symbols_cut, symbols_in, unmodified, with_import_line, with_references,
    ImpactLink, ImpactedFile, ImpactedV, LinkV, RingV, ScannedV, SignatureV, MAX_IMPACTED,
    MAX_SYMBOLS_PER_FILE,
};
use crate::sorting::{deduped, is_ranking, sorted, sorting_keeps_the_items_and_orders_them, Ranked};
use crate::text::{
    after_space, before, has_prefix, is_ascii_alnum, is_white_space, lemma_before, lemma_next_char,
    lines, next_char, trim_start, unicode_alphanumeric,
};
use vstd::prelude::*;

verus! {

// ---------------------------------------------------------------------------
// Which names are symbols
// ---------------------------------------------------------------------------

/// A name long enough to be searched for.
pub open spec fn is_name(name: Seq<char>) -> bool {
    name.len() >= 3 && forall|i: int|
        0 <= i < name.len() ==> unicode_alphanumeric(#[trigger] name[i]) || name[i] == '_'
}

/// Whether a name ends where `tail` begins.
pub open spec fn ends_a_name(tail: Seq<char>) -> bool {
    tail.len() == 0 || !(unicode_alphanumeric(tail[0]) || tail[0] == '_')
}

proof fn lemma_identifier(s: Seq<char>, n: int, i: int)
    requires
        0 <= i <= n <= s.len(),
        forall|k: int| 0 <= k < n ==> unicode_alphanumeric(#[trigger] s[k]) || s[k] == '_',
        n == s.len() || !(unicode_alphanumeric(s[n]) || s[n] == '_'),
    ensures
        identifier_end(s, i) == n,
    decreases n - i,
{
    if i < n {
        assert(unicode_alphanumeric(s[i]) || s[i] == '_');
        lemma_identifier(s, n, i + 1);
    }
}

proof fn lemma_first_name(name: Seq<char>, tail: Seq<char>)
    requires
        is_name(name),
        ends_a_name(tail),
    ensures
        first_name(name + tail) == Some(name),
{
    let s = name + tail;
    assert forall|k: int| 0 <= k < name.len() implies unicode_alphanumeric(#[trigger] s[k]) || s[k]
        == '_' by {
        assert(s[k] == name[k]);
    }
    lemma_identifier(s, name.len() as int, 0);
    assert(s.subrange(0, name.len() as int) =~= name);
}

proof fn lemma_prefix(p: Seq<char>, rest: Seq<char>)
    ensures
        has_prefix(p + rest, p),
        (p + rest).subrange(p.len() as int, (p + rest).len() as int) == rest,
{
    assert((p + rest).subrange(0, p.len() as int) =~= p);
    assert((p + rest).subrange(p.len() as int, (p + rest).len() as int) =~= rest);
}

proof fn lemma_no_prefix(s: Seq<char>, p: Seq<char>, i: int)
    requires
        0 <= i < p.len(),
        i >= s.len() || s[i] != p[i],
    ensures
        !has_prefix(s, p),
{
    if has_prefix(s, p) {
        assert(s.subrange(0, p.len() as int)[i] == p[i]);
    }
}

/// What follows a word of the list that `s` begins with, where no earlier one begins it.
proof fn lemma_after_word(words: Seq<Seq<char>>, k: int, rest: Seq<char>)
    requires
        0 <= k < words.len(),
        forall|j: int| 0 <= j < k ==> !has_prefix(words[k] + rest, #[trigger] words[j]),
    ensures
        after_word(words[k] + rest, words) == Some(rest),
    decreases k,
{
    let s = words[k] + rest;
    lemma_prefix(words[k], rest);
    if k > 0 {
        let t = words.subrange(1, words.len() as int);
        assert(!has_prefix(s, words[0]));
        assert forall|j: int| 0 <= j < k - 1 implies !has_prefix(
            t[k - 1] + rest,
            #[trigger] t[j],
        ) by {
            assert(!has_prefix(s, words[j + 1]));
        }
        lemma_after_word(t, k - 1, rest);
    }
}

proof fn lemma_exported(ls: Seq<Seq<char>>, ext: Seq<char>, k: int, name: Seq<char>)
    requires
        0 <= k < ls.len(),
        line_symbol(ls[k], ext) == Some(name),
        name.len() >= 3,
    ensures
        exported(ls, ext).contains(name),
    decreases ls.len(),
{
    let d = ls.drop_last();
    let found = exported(d, ext);
    let all = exported(ls, ext);
    if k < d.len() {
        assert(d[k] == ls[k]);
        lemma_exported(d, ext, k, name);
        let i = choose|i: int| 0 <= i < found.len() && found[i] == name;
        assert(all[i] == name);
    } else if !found.contains(name) {
        assert(all[all.len() - 1] == name);
    }
}

/// A top-level function or class of a Python file is a symbol of it.
pub proof fn a_python_definition_is_a_symbol(
    ls: Seq<Seq<char>>,
    k: int,
    word: Seq<char>,
    name: Seq<char>,
    tail: Seq<char>,
)
    requires
        0 <= k < ls.len(),
        word == "def "@ || word == "class "@,
        is_name(name),
        ends_a_name(tail),
        ls[k] == word + name + tail,
    ensures
        exported(ls, "py"@).contains(name),
        exported(ls, "py"@).len() <= MAX_SYMBOLS_PER_FILE ==> symbols_in(ls, "py"@).contains(name),
{
    reveal_strlit("def ");
    reveal_strlit("class ");
    lemma_extensions();
    let line = ls[k];
    let rest = name + tail;
    assert(line =~= word + rest);
    let words = crate::impact::python_words();
    if word == "def "@ {
        lemma_after_word(words, 0, rest);
    } else {
        lemma_no_prefix(line, "def "@, 0);
        lemma_after_word(words, 1, rest);
    }
    lemma_first_name(name, tail);
    lemma_exported(ls, "py"@, k, name);
}

/// The extensions are told apart.
proof fn lemma_extensions()
    ensures
        "py"@ != "rs"@,
        "py"@ != "ts"@,
        "py"@ != "tsx"@,
        "py"@ != "js"@,
        "py"@ != "jsx"@,
        "py"@ != "mjs"@,
        "py"@ != "cjs"@,
        "py"@ != "cs"@,
        "cs"@ != "rs"@,
        "cs"@ != "ts"@,
        "cs"@ != "tsx"@,
        "cs"@ != "js"@,
        "cs"@ != "jsx"@,
        "cs"@ != "mjs"@,
        "cs"@ != "cjs"@,
        "rs"@ != "ts"@,
        "rs"@ != "tsx"@,
        "rs"@ != "js"@,
        "rs"@ != "jsx"@,
        "rs"@ != "mjs"@,
        "rs"@ != "cjs"@,
{
    reveal_strlit("py");
    reveal_strlit("rs");
    reveal_strlit("ts");
    reveal_strlit("tsx");
    reveal_strlit("js");
    reveal_strlit("jsx");
    reveal_strlit("mjs");
    reveal_strlit("cjs");
    reveal_strlit("cs");
    assert("py"@[0] == 'p' && "rs"@[0] == 'r' && "ts"@[0] == 't' && "js"@[0] == 'j' && "cs"@[0]
        == 'c');
    assert("tsx"@.len() == 3 && "jsx"@.len() == 3 && "mjs"@.len() == 3 && "cjs"@.len() == 3);
    assert("py"@.len() == 2 && "rs"@.len() == 2 && "cs"@.len() == 2);
}

/// A text that begins with no white space is left as it is.
proof fn lemma_no_indent(s: Seq<char>)
    requires
        s.len() > 0,
        !is_white_space(s[0]),
    ensures
        trim_start(s) == s,
{
    assert(s.subrange(0, s.len() as int) =~= s);
}

proof fn lemma_rust_word(word: Seq<char>, rest: Seq<char>)
    requires
        word == "fn "@ || word == "struct "@ || word == "enum "@ || word == "trait "@ || word
            == "const "@ || word == "type "@ || word == "static "@ || word == "async fn "@,
    ensures
        after_word(word + rest, crate::impact::rust_words()) == Some(rest),
        word.len() > 0,
        !is_white_space(word[0]),
{
    reveal_strlit("fn ");
    reveal_strlit("struct ");
    reveal_strlit("enum ");
    reveal_strlit("trait ");
    reveal_strlit("const ");
    reveal_strlit("type ");
    reveal_strlit("static ");
    reveal_strlit("async fn ");
    let s = word + rest;
    let words = crate::impact::rust_words();
    if word != "fn "@ {
        lemma_no_prefix(s, "fn "@, 0);
    }
    if word != "struct "@ {
        lemma_no_prefix(s, "struct "@, if word == "static "@ {
            2
        } else {
            0
        });
    }
    if word != "enum "@ {
        lemma_no_prefix(s, "enum "@, 0);
    }
    if word != "trait "@ {
        lemma_no_prefix(s, "trait "@, if word == "type "@ {
            1
        } else {
            0
        });
    }
    if word != "const "@ {
        lemma_no_prefix(s, "const "@, 0);
    }
    if word != "type "@ {
        lemma_no_prefix(s, "type "@, if word == "trait "@ {
            1
        } else {
            0
        });
    }
    if word != "static "@ {
        lemma_no_prefix(s, "static "@, if word == "struct "@ {
            2
        } else {
            0
        });
    }
    let k: int = if word == "fn "@ {
        0
    } else if word == "struct "@ {
        1
    } else if word == "enum "@ {
        2
    } else if word == "trait "@ {
        3
    } else if word == "const "@ {
        4
    } else if word == "type "@ {
        5
    } else if word == "static "@ {
        6
    } else {
        7
    };
    assert(words[k] == word);
    lemma_after_word(words, k, rest);
}

/// A public item of a Rust file, `pub` or `pub(…)`, is a symbol of it.
pub proof fn a_public_rust_item_is_a_symbol(
    ls: Seq<Seq<char>>,
    k: int,
    scope: Seq<char>,
    word: Seq<char>,
    name: Seq<char>,
    tail: Seq<char>,
)
    requires
        0 <= k < ls.len(),
        word == "fn "@ || word == "struct "@ || word == "enum "@ || word == "trait "@ || word
            == "const "@ || word == "type "@ || word == "static "@ || word == "async fn "@,
        is_name(name),
        ends_a_name(tail),
        !scope.contains(')'),
        ls[k] == "pub "@ + word + name + tail || ls[k] == "pub("@ + scope + ") "@ + word + name
            + tail,
    ensures
        exported(ls, "rs"@).contains(name),
        exported(ls, "rs"@).len() <= MAX_SYMBOLS_PER_FILE ==> symbols_in(ls, "rs"@).contains(name),
{
    reveal_strlit("pub");
    reveal_strlit("pub ");
    reveal_strlit("pub(");
    reveal_strlit(") ");
    let line = ls[k];
    let said = word + name + tail;
    assert(said =~= word + (name + tail));
    lemma_rust_word(word, name + tail);
    lemma_no_indent(line);
    let rest = line.subrange(3, line.len() as int);
    assert(line.subrange(0, 3) =~= "pub"@);
    if line == "pub "@ + word + name + tail {
        assert(rest =~= seq![' '] + said);
        assert(after_space(rest, 0) == 1) by {
            assert(after_space(rest, 1) == 1);
        }
        assert(trim_start(rest) =~= said);
    } else {
        assert(rest =~= seq!['('] + scope + ") "@ + said);
        let at = 1 + scope.len() as int;
        lemma_next_char(rest, ')', 1);
        assert(next_char(rest, ')', 1) == at) by {
            let n = next_char(rest, ')', 1);
            assert(rest[at] == ')');
            if n < at {
                assert(rest[n] == ')');
                assert(rest[n] == scope[n - 1]);
                assert(scope.contains(')'));
            }
        }
        let behind = rest.subrange(at + 1, rest.len() as int);
        assert(behind =~= seq![' '] + said);
        assert(after_space(behind, 0) == 1) by {
            assert(after_space(behind, 1) == 1);
        }
        assert(trim_start(behind) =~= said);
    }
    lemma_first_name(name, tail);
    assert(name_after(said, crate::impact::rust_words()) == Some(name));
    lemma_exported(ls, "rs"@, k, name);
}

proof fn lemma_ts_word(word: Seq<char>, rest: Seq<char>)
    requires
        word == "function "@ || word == "const "@ || word == "let "@ || word == "class "@ || word
            == "interface "@ || word == "type "@ || word == "enum "@,
    ensures
        after_word(word + rest, crate::impact::ts_words()) == Some(rest),
        skipping(word + rest, "default "@) == word + rest,
        skipping(word + rest, "abstract "@) == word + rest,
        skipping(word + rest, "async "@) == word + rest,
{
    reveal_strlit("function ");
    reveal_strlit("const ");
    reveal_strlit("let ");
    reveal_strlit("class ");
    reveal_strlit("interface ");
    reveal_strlit("type ");
    reveal_strlit("enum ");
    reveal_strlit("default ");
    reveal_strlit("abstract ");
    reveal_strlit("async ");
    let s = word + rest;
    let words = crate::impact::ts_words();
    lemma_no_prefix(s, "default "@, 0);
    lemma_no_prefix(s, "abstract "@, 0);
    lemma_no_prefix(s, "async "@, 0);
    if word != "function "@ {
        lemma_no_prefix(s, "function "@, 0);
    }
    if word != "const "@ {
        lemma_no_prefix(s, "const "@, if word == "class "@ {
            1
        } else {
            0
        });
    }
    if word != "let "@ {
        lemma_no_prefix(s, "let "@, 0);
    }
    if word != "class "@ {
        lemma_no_prefix(s, "class "@, if word == "const "@ {
            1
        } else {
            0
        });
    }
    if word != "interface "@ {
        lemma_no_prefix(s, "interface "@, 0);
    }
    if word != "type "@ {
        lemma_no_prefix(s, "type "@, 0);
    }
    let k: int = if word == "function "@ {
        0
    } else if word == "const "@ {
        1
    } else if word == "let "@ {
        2
    } else if word == "class "@ {
        3
    } else if word == "interface "@ {
        4
    } else if word == "type "@ {
        5
    } else {
        6
    };
    assert(words[k] == word);
    lemma_after_word(words, k, rest);
}

/// What a TypeScript or JavaScript file exports by name is a symbol of it, also as the
/// default, abstract or asynchronous.
pub proof fn an_export_is_a_symbol(
    ls: Seq<Seq<char>>,
    ext: Seq<char>,
    k: int,
    how: Seq<char>,
    word: Seq<char>,
    name: Seq<char>,
    tail: Seq<char>,
)
    requires
        0 <= k < ls.len(),
        ext == "ts"@ || ext == "tsx"@ || ext == "js"@ || ext == "jsx"@ || ext == "mjs"@ || ext
            == "cjs"@,
        how == ""@ || how == "default "@ || how == "abstract "@ || how == "async "@,
        word == "function "@ || word == "const "@ || word == "let "@ || word == "class "@ || word
            == "interface "@ || word == "type "@ || word == "enum "@,
        is_name(name),
        ends_a_name(tail),
        ls[k] == "export "@ + how + word + name + tail,
    ensures
        exported(ls, ext).contains(name),
        exported(ls, ext).len() <= MAX_SYMBOLS_PER_FILE ==> symbols_in(ls, ext).contains(name),
{
    reveal_strlit("export ");
    reveal_strlit("");
    reveal_strlit("default ");
    reveal_strlit("abstract ");
    reveal_strlit("async ");
    lemma_extensions();
    let line = ls[k];
    let said = word + (name + tail);
    lemma_ts_word(word, name + tail);
    lemma_no_indent(line);
    assert(line.subrange(0, 7) =~= "export "@);
    let rest = line.subrange(7, line.len() as int);
    assert(rest =~= how + said);
    if how == ""@ {
        assert(rest =~= said);
    } else {
        lemma_prefix(how, said);
        if how != "default "@ {
            lemma_no_prefix(rest, "default "@, 0);
        }
        if how == "async "@ {
            lemma_no_prefix(rest, "abstract "@, 1);
        }
    }
    assert(skipping(skipping(skipping(rest, "default "@), "abstract "@), "async "@) == said);
    lemma_first_name(name, tail);
    lemma_exported(ls, ext, k, name);
}

proof fn lemma_csharp_word(word: Seq<char>, rest: Seq<char>)
    requires
        word == "class "@ || word == "interface "@ || word == "record "@ || word == "struct "@
            || word == "enum "@,
    ensures
        after_word(word + rest, crate::impact::csharp_words()) == Some(rest),
        after_word(word + rest, crate::impact::csharp_modifiers()) is None,
{
    reveal_strlit("class ");
    reveal_strlit("interface ");
    reveal_strlit("record ");
    reveal_strlit("struct ");
    reveal_strlit("enum ");
    reveal_strlit("static ");
    reveal_strlit("sealed ");
    reveal_strlit("abstract ");
    reveal_strlit("partial ");
    reveal_strlit("readonly ");
    reveal_strlit("ref ");
    let s = word + rest;
    let words = crate::impact::csharp_words();
    if word != "class "@ {
        lemma_no_prefix(s, "class "@, 0);
    }
    if word != "interface "@ {
        lemma_no_prefix(s, "interface "@, 0);
    }
    if word != "record "@ {
        lemma_no_prefix(s, "record "@, 0);
    }
    if word != "struct "@ {
        lemma_no_prefix(s, "struct "@, 0);
    }
    let k: int = if word == "class "@ {
        0
    } else if word == "interface "@ {
        1
    } else if word == "record "@ {
        2
    } else if word == "struct "@ {
        3
    } else {
        4
    };
    assert(words[k] == word);
    lemma_after_word(words, k, rest);
    lemma_no_prefix(s, "static "@, if word == "struct "@ {
        2
    } else {
        0
    });
    lemma_no_prefix(s, "sealed "@, if word == "struct "@ {
        1
    } else {
        0
    });
    lemma_no_prefix(s, "abstract "@, 0);
    lemma_no_prefix(s, "partial "@, 0);
    lemma_no_prefix(s, "readonly "@, if word == "record "@ {
        2
    } else {
        0
    });
    lemma_no_prefix(s, "ref "@, if word == "record "@ {
        2
    } else {
        0
    });
    lemma_none_begins(s, crate::impact::csharp_modifiers());
}

proof fn lemma_none_begins(s: Seq<char>, words: Seq<Seq<char>>)
    requires
        forall|j: int| 0 <= j < words.len() ==> !has_prefix(s, #[trigger] words[j]),
    ensures
        after_word(s, words) is None,
    decreases words.len(),
{
    if words.len() > 0 {
        assert(!has_prefix(s, words[0]));
        let t = words.subrange(1, words.len() as int);
        assert forall|j: int| 0 <= j < t.len() implies !has_prefix(s, #[trigger] t[j]) by {
            assert(!has_prefix(s, words[j + 1]));
        }
        lemma_none_begins(s, t);
    }
}

proof fn lemma_modifier(modifier: Seq<char>, rest: Seq<char>)
    requires
        modifier == "static "@ || modifier == "sealed "@ || modifier == "abstract "@ || modifier
            == "partial "@ || modifier == "readonly "@ || modifier == "ref "@,
    ensures
        unmodified(modifier + rest) == unmodified(rest),
{
    reveal_strlit("static ");
    reveal_strlit("sealed ");
    reveal_strlit("abstract ");
    reveal_strlit("partial ");
    reveal_strlit("readonly ");
    reveal_strlit("ref ");
    let s = modifier + rest;
    let words = crate::impact::csharp_modifiers();
    if modifier != "static "@ {
        lemma_no_prefix(s, "static "@, if modifier == "sealed "@ {
            1
        } else {
            0
        });
    }
    if modifier != "sealed "@ {
        lemma_no_prefix(s, "sealed "@, if modifier == "static "@ {
            1
        } else {
            0
        });
    }
    if modifier != "abstract "@ {
        lemma_no_prefix(s, "abstract "@, 0);
    }
    if modifier != "partial "@ {
        lemma_no_prefix(s, "partial "@, 0);
    }
    if modifier != "readonly "@ {
        lemma_no_prefix(s, "readonly "@, if modifier == "ref "@ {
            2
        } else {
            0
        });
    }
    let k: int = if modifier == "static "@ {
        0
    } else if modifier == "sealed "@ {
        1
    } else if modifier == "abstract "@ {
        2
    } else if modifier == "partial "@ {
        3
    } else if modifier == "readonly "@ {
        4
    } else {
        5
    };
    assert(words[k] == modifier);
    lemma_after_word(words, k, rest);
}

/// A type that a C# file declares for others is a symbol of it, with or without modifiers.
#[verifier::rlimit(40)]
pub proof fn a_csharp_type_is_a_symbol(
    ls: Seq<Seq<char>>,
    k: int,
    access: Seq<char>,
    first: Seq<char>,
    second: Seq<char>,
    word: Seq<char>,
    name: Seq<char>,
    tail: Seq<char>,
)
    requires
        0 <= k < ls.len(),
        access == "public "@ || access == "internal "@,
        first == ""@ || first == "static "@ || first == "sealed "@ || first == "abstract "@
            || first == "partial "@ || first == "readonly "@ || first == "ref "@,
        second == ""@ || second == "static "@ || second == "sealed "@ || second == "abstract "@
            || second == "partial "@ || second == "readonly "@ || second == "ref "@,
        word == "class "@ || word == "interface "@ || word == "record "@ || word == "struct "@
            || word == "enum "@,
        is_name(name),
        ends_a_name(tail),
        ls[k] == access + first + second + word + name + tail,
    ensures
        exported(ls, "cs"@).contains(name),
        exported(ls, "cs"@).len() <= MAX_SYMBOLS_PER_FILE ==> symbols_in(ls, "cs"@).contains(name),
{
    let said = word + (name + tail);
    let rest = first + (second + said);
    assert(ls[k] =~= access + rest);
    lemma_access(access, rest);
    lemma_csharp_word(word, name + tail);
    lemma_first_name(name, tail);
    lemma_maybe_modifier(second, said);
    lemma_maybe_modifier(first, second + said);
    lemma_csharp_line(ls[k], rest, said, name + tail, name);
    lemma_exported(ls, "cs"@, k, name);
}

proof fn lemma_csharp_line(
    line: Seq<char>,
    rest: Seq<char>,
    said: Seq<char>,
    named: Seq<char>,
    name: Seq<char>,
)
    requires
        trim_start(line) == line,
        after_word(line, seq!["public "@, "internal "@]) == Some(rest),
        unmodified(rest) == unmodified(said),
        after_word(said, crate::impact::csharp_modifiers()) is None,
        after_word(said, crate::impact::csharp_words()) == Some(named),
        first_name(named) == Some(name),
    ensures
        line_symbol(line, "cs"@) == Some(name),
{
    lemma_extensions();
}

proof fn lemma_access(access: Seq<char>, rest: Seq<char>)
    requires
        access == "public "@ || access == "internal "@,
    ensures
        trim_start(access + rest) == access + rest,
        after_word(access + rest, seq!["public "@, "internal "@]) == Some(rest),
{
    reveal_strlit("public ");
    reveal_strlit("internal ");
    let line = access + rest;
    lemma_no_indent(line);
    let words = seq!["public "@, "internal "@];
    if access == "public "@ {
        lemma_after_word(words, 0, rest);
    } else {
        lemma_no_prefix(line, "public "@, 0);
        lemma_after_word(words, 1, rest);
    }
}

proof fn lemma_maybe_modifier(modifier: Seq<char>, rest: Seq<char>)
    requires
        modifier == ""@ || modifier == "static "@ || modifier == "sealed "@ || modifier
            == "abstract "@ || modifier == "partial "@ || modifier == "readonly "@ || modifier
            == "ref "@,
    ensures
        unmodified(modifier + rest) == unmodified(rest),
{
    reveal_strlit("");
    if modifier == ""@ {
        assert(modifier + rest =~= rest);
    } else {
        lemma_modifier(modifier, rest);
    }
}

/// A symbol has at least three characters and stands once among the symbols of its file, of
/// which there are no more than the cap allows.
pub proof fn symbols_are_few_and_long_enough(ls: Seq<Seq<char>>, ext: Seq<char>)
    ensures
        symbols_in(ls, ext).len() <= 30,
        symbols_in(ls, ext).no_duplicates(),
        forall|i: int|
            0 <= i < symbols_in(ls, ext).len() ==> (#[trigger] symbols_in(ls, ext)[i]).len() >= 3,
        exported(ls, ext).len() <= 30 ==> symbols_in(ls, ext) == exported(ls, ext),
{
    lemma_distinct(ls, ext);
    let all = exported(ls, ext);
    let s = symbols_in(ls, ext);
    assert forall|i: int| 0 <= i < s.len() implies s[i] == all[i] by {}
}

proof fn lemma_distinct(ls: Seq<Seq<char>>, ext: Seq<char>)
    ensures
        exported(ls, ext).no_duplicates(),
        forall|i: int|
            0 <= i < exported(ls, ext).len() ==> (#[trigger] exported(ls, ext)[i]).len() >= 3,
    decreases ls.len(),
{
    if ls.len() > 0 {
        lemma_distinct(ls.drop_last(), ext);
        let found = exported(ls.drop_last(), ext);
        let all = exported(ls, ext);
        assert forall|i: int, j: int| 0 <= i < all.len() && 0 <= j < all.len() && i != j implies all[i]
            != all[j] by {
            if i < found.len() && j < found.len() {
                assert(found[i] != found[j]);
            } else if i < found.len() {
                assert(found.contains(found[i]));
            } else {
                assert(found.contains(found[j]));
            }
        }
    }
}

// ---------------------------------------------------------------------------
// What is found
// ---------------------------------------------------------------------------

proof fn lemma_truncation_lasts(files: Seq<ScannedV>)
    requires
        files.len() > 0,
        !changed_of(files).truncated,
    ensures
        !changed_of(files.drop_last()).truncated,
{
}

proof fn lemma_signature_kept(files: Seq<ScannedV>, i: int) -> (k: int)
    requires
        0 <= i < files.len(),
        is_source(files[i].path),
        !changed_of(files).truncated,
    ensures
        0 <= k < changed_of(files).signatures.len(),
        changed_of(files).signatures[k] == signature_of(files[i].path, files[i].content),
        !symbols_cut(files[i]),
    decreases files.len(),
{
    let d = files.drop_last();
    lemma_truncation_lasts(files);
    if i < d.len() {
        assert(d[i] == files[i]);
        let k = lemma_signature_kept(d, i);
        assert(changed_of(files).signatures[k] == changed_of(d).signatures[k]);
        k
    } else {
        changed_of(d).signatures.len() as int
    }
}

proof fn lemma_mentioned(content: Seq<char>, symbols: Seq<Seq<char>>, i: int, k: int)
    requires
        0 <= i <= k < symbols.len(),
        has_word(content, symbols[k]),
    ensures
        mentioned(content, symbols, i) is Some,
    decreases k - i,
{
    if i < k && !has_word(content, symbols[i]) {
        lemma_mentioned(content, symbols, i + 1, k);
    }
}

proof fn lemma_still_linked(a: Seq<LinkV>, l: LinkV, target: Seq<char>)
    requires
        links_target(a, target),
    ensures
        links_target(a.push(l), target),
{
    let i = choose|i: int| 0 <= i < a.len() && (#[trigger] a[i]).target == target;
    assert(a.push(l)[i].target == target);
}

proof fn lemma_referenced(links: Seq<LinkV>, content: Seq<char>, sigs: Seq<SignatureV>, k: int)
    requires
        0 <= k < sigs.len(),
        mentioned(content, sigs[k].symbols, 0) is Some,
    ensures
        links_target(with_references(links, content, sigs), sigs[k].path),
    decreases sigs.len(),
{
    let d = sigs.drop_last();
    let before = with_references(links, content, d);
    let all = with_references(links, content, sigs);
    if k < d.len() {
        assert(d[k] == sigs[k]);
        lemma_referenced(links, content, d, k);
        if all != before {
            lemma_still_linked(before, all.last(), sigs[k].path);
            assert(all =~= before.push(all.last()));
        }
    } else if !links_target(before, sigs[k].path) {
        assert(all[all.len() - 1].target == sigs[k].path);
    }
}

proof fn lemma_references_keep(links: Seq<LinkV>, content: Seq<char>, sigs: Seq<SignatureV>, l: LinkV)
    requires
        links.contains(l),
    ensures
        with_references(links, content, sigs).contains(l),
    decreases sigs.len(),
{
    if sigs.len() > 0 {
        lemma_references_keep(links, content, sigs.drop_last(), l);
        let before = with_references(links, content, sigs.drop_last());
        let all = with_references(links, content, sigs);
        let i = choose|i: int| 0 <= i < before.len() && before[i] == l;
        assert(all[i] == l);
    }
}

proof fn lemma_import_line(links: Seq<LinkV>, line: Seq<char>, sigs: Seq<SignatureV>, k: int)
    requires
        0 <= k < sigs.len(),
        has_word(line, sigs[k].stem),
    ensures
        imports_target(with_import_line(links, line, sigs), sigs[k].path),
    decreases sigs.len(),
{
    let d = sigs.drop_last();
    let before = with_import_line(links, line, d);
    let all = with_import_line(links, line, sigs);
    if k < d.len() {
        assert(d[k] == sigs[k]);
        lemma_import_line(links, line, d, k);
        let i = choose|i: int|
            0 <= i < before.len() && (#[trigger] before[i]).target == sigs[k].path
                && before[i].kind == "import"@;
        assert(all[i] == before[i]);
    } else if !imports_target(before, sigs[k].path) {
        assert(all[all.len() - 1].target == sigs[k].path);
    }
}

proof fn lemma_import_line_keeps(links: Seq<LinkV>, line: Seq<char>, sigs: Seq<SignatureV>)
    ensures
        links.len() <= with_import_line(links, line, sigs).len(),
        forall|i: int|
            0 <= i < links.len() ==> with_import_line(links, line, sigs)[i] == #[trigger] links[i],
    decreases sigs.len(),
{
    if sigs.len() > 0 {
        lemma_import_line_keeps(links, line, sigs.drop_last());
    }
}

proof fn lemma_imported(ls: Seq<Seq<char>>, sigs: Seq<SignatureV>, n: int, k: int)
    requires
        0 <= n < ls.len(),
        0 <= k < sigs.len(),
        is_import(trim_start(ls[n])),
        has_word(trim_start(ls[n]), sigs[k].stem),
    ensures
        imports_target(import_links(ls, sigs), sigs[k].path),
    decreases ls.len(),
{
    let d = ls.drop_last();
    let before = import_links(d, sigs);
    let t = trim_start(ls.last());
    if n < d.len() {
        assert(d[n] == ls[n]);
        lemma_imported(d, sigs, n, k);
        let i = choose|i: int|
            0 <= i < before.len() && (#[trigger] before[i]).target == sigs[k].path
                && before[i].kind == "import"@;
        if is_import(t) {
            lemma_import_line_keeps(before, t, sigs);
        }
        assert(import_links(ls, sigs)[i] == before[i]);
    } else {
        lemma_import_line(before, t, sigs, k);
    }
}

proof fn lemma_ring_entry(files: Seq<ScannedV>, sigs: Seq<SignatureV>, j: int) -> (n: int)
    requires
        0 <= j < files.len(),
        direct_links(files[j], sigs).len() > 0,
        !ring_one(files, sigs).full,
    ensures
        0 <= n < ring_one(files, sigs).impacted.len(),
        ring_one(files, sigs).impacted[n] == impacted_of(
            files[j].path,
            1,
            direct_links(files[j], sigs),
        ),
    decreases files.len(),
{
    let d = files.drop_last();
    let before = ring_one(d, sigs);
    if j < d.len() {
        assert(d[j] == files[j]);
        let n = lemma_ring_entry(d, sigs, j);
        assert(ring_one(files, sigs).impacted[n] == before.impacted[n]);
        n
    } else {
        before.impacted.len() as int
    }
}

proof fn lemma_ring_two_keeps(files: Seq<ScannedV>, sigs: Seq<SignatureV>, ring: RingV)
    ensures
        ring.impacted.len() <= ring_two(files, sigs, ring).impacted.len(),
        forall|i: int|
            0 <= i < ring.impacted.len() ==> ring_two(files, sigs, ring).impacted[i]
                == #[trigger] ring.impacted[i],
        ring.full ==> ring_two(files, sigs, ring).full,
        ring.cut ==> ring_two(files, sigs, ring).cut,
    decreases files.len(),
{
    if files.len() > 0 {
        lemma_ring_two_keeps(files.drop_last(), sigs, ring);
    }
}

proof fn lemma_deduped<V>(s: Seq<V>, k: int) -> (n: int)
    requires
        0 <= k < s.len(),
    ensures
        0 <= n < deduped(s).len(),
        deduped(s)[n] == s[k],
    decreases s.len(),
{
    let d = s.drop_last();
    let before = deduped(d);
    if k < d.len() {
        let n = lemma_deduped(d, k);
        assert(deduped(s)[n] == before[n]);
        n
    } else {
        deduped(s).len() - 1
    }
}

proof fn lemma_links_ranked()
    ensures
        is_ranking::<ImpactLink>(),
{
    assert forall|a: LinkV, b: LinkV| #[trigger]
        ImpactLink::in_order(a, b) || ImpactLink::in_order(b, a) by {
        lemma_before(a.target, b.target, b.target);
    }
    assert forall|a: LinkV, b: LinkV, c: LinkV| #[trigger]
        ImpactLink::in_order(a, b) && #[trigger] ImpactLink::in_order(b, c) implies
        ImpactLink::in_order(a, c) by {
        lemma_before(a.target, b.target, c.target);
    }
}

/// A link of a file is in its entry, where the entry leaves none out.
proof fn lemma_entry_has(path: Seq<char>, distance: u8, links: Seq<LinkV>, k: int)
    requires
        0 <= k < links.len(),
        !links_cut(links),
    ensures
        impacted_of(path, distance, links).links.contains(links[k]),
        links[k].kind == "import"@ ==> impacted_of(path, distance, links).kind == "import"@,
{
    broadcast use vstd::seq_lib::group_to_multiset_ensures;

    lemma_links_ranked();
    sorting_keeps_the_items_and_orders_them::<ImpactLink>(links);
    let s = sorted::<ImpactLink>(links);
    assert(links.contains(links[k]));
    assert(s.to_multiset().count(links[k]) > 0);
    assert(s.contains(links[k]));
    let i = choose|i: int| 0 <= i < s.len() && s[i] == links[k];
    let n = lemma_deduped(s, i);
    assert(deduped(s)[n] == links[k]);
}

/// A candidate with a link is in a report that was not cut short.
proof fn lemma_reported(
    changed: Seq<ScannedV>,
    candidates: Seq<ScannedV>,
    truncated: bool,
    j: int,
) -> (e: ImpactedV)
    requires
        !report_of(changed, candidates, truncated).truncated,
        changed_of(changed).signatures.len() > 0,
        0 <= j < candidates.len(),
        direct_links(candidates[j], changed_of(changed).signatures).len() > 0,
    ensures
        e == impacted_of(
            candidates[j].path,
            1,
            direct_links(candidates[j], changed_of(changed).signatures),
        ),
        report_of(changed, candidates, truncated).impacted.contains(e),
        !links_cut(direct_links(candidates[j], changed_of(changed).signatures)),
{
    broadcast use vstd::seq_lib::group_to_multiset_ensures;

    let c = changed_of(changed);
    let one = ring_one(candidates, c.signatures);
    let sigs = importer_signatures(one.impacted);
    let both = if sigs.len() > 0 && one.impacted.len() < MAX_IMPACTED {
        ring_two(candidates, sigs, one)
    } else {
        one
    };
    lemma_ring_two_keeps(candidates, sigs, one);
    let n = lemma_ring_entry(candidates, c.signatures, j);
    let e = one.impacted[n];
    assert(both.impacted[n] == e);
    impacted_files_are_ranked();
    sorting_keeps_the_items_and_orders_them::<ImpactedFile>(both.impacted);
    assert(both.impacted.contains(e));
    let s = sorted::<ImpactedFile>(both.impacted);
    assert(s.to_multiset().count(e) > 0);
    if links_cut(direct_links(candidates[j], c.signatures)) {
        lemma_ring_one_cut(candidates, c.signatures, j);
    }
    e
}

/// Whether `name` stands in a text with nothing on either side that an identifier could go
/// on with.
pub open spec fn names(text: Seq<char>, front: Seq<char>, name: Seq<char>, behind: Seq<char>) -> bool {
    &&& text == front + name + behind
    &&& front.len() == 0 || !(is_ascii_alnum(front.last()) || front.last() == '_')
    &&& behind.len() == 0 || !(is_ascii_alnum(behind[0]) || behind[0] == '_')
}

proof fn lemma_names(text: Seq<char>, front: Seq<char>, name: Seq<char>, behind: Seq<char>)
    requires
        names(text, front, name, behind),
        name.len() > 0,
    ensures
        has_word(text, name),
{
    let i = front.len() as int;
    assert(text.subrange(i, i + name.len()) =~= name);
    assert(is_word_at(text, name, i));
}

/// Everything that names a symbol of a changed file is found: a report that was not cut short
/// lists every candidate whose text holds such a symbol as a whole word, directly impacted,
/// with a link to the changed file.
pub proof fn whoever_names_a_symbol_is_listed(
    changed: Seq<ScannedV>,
    candidates: Seq<ScannedV>,
    truncated: bool,
    i: int,
    content: Seq<char>,
    symbol: Seq<char>,
    j: int,
    front: Seq<char>,
    behind: Seq<char>,
)
    requires
        !report_of(changed, candidates, truncated).truncated,
        0 <= i < changed.len(),
        is_source(changed[i].path),
        changed[i].content == Some(content),
        exported(lines(content), extension_of(changed[i].path)).contains(symbol),
        symbol.len() > 0,
        0 <= j < candidates.len(),
        candidates[j].content is Some,
        names(candidates[j].content->0, front, symbol, behind),
    ensures
        exists|e: ImpactedV| #[trigger]
            report_of(changed, candidates, truncated).impacted.contains(e) && e.path
                == candidates[j].path && e.distance == 1 && links_target(
                e.links,
                changed[i].path,
            ),
{
    let text = candidates[j].content->0;
    let sigs = changed_of(changed).signatures;
    let k = lemma_signature_kept(changed, i);
    let symbols = sigs[k].symbols;
    assert(symbols == exported(lines(content), extension_of(changed[i].path)));
    let n = choose|n: int| 0 <= n < symbols.len() && symbols[n] == symbol;
    lemma_names(text, front, symbol, behind);
    lemma_mentioned(text, symbols, 0, n);
    lemma_referenced(import_links(lines(text), sigs), text, sigs, k);
    let links = direct_links(candidates[j], sigs);
    let at = choose|at: int|
        0 <= at < links.len() && (#[trigger] links[at]).target == changed[i].path;
    let e = lemma_reported(changed, candidates, truncated, j);
    lemma_entry_has(candidates[j].path, 1, links, at);
    let m = choose|m: int| 0 <= m < e.links.len() && e.links[m] == links[at];
    assert(e.links[m].target == changed[i].path);
}

/// A function that a Python diff changed leads to every file that calls it: with a line
/// `def NAME…` or `class NAME…` in a changed file, every candidate that holds NAME as a whole
/// word is listed with a link to it, unless the report says that it was cut short.
pub proof fn whoever_calls_a_changed_python_function_is_listed(
    changed: Seq<ScannedV>,
    candidates: Seq<ScannedV>,
    truncated: bool,
    i: int,
    content: Seq<char>,
    n: int,
    word: Seq<char>,
    name: Seq<char>,
    tail: Seq<char>,
    j: int,
    front: Seq<char>,
    behind: Seq<char>,
)
    requires
        !report_of(changed, candidates, truncated).truncated,
        0 <= i < changed.len(),
        extension_of(changed[i].path) == "py"@,
        changed[i].content == Some(content),
        0 <= n < lines(content).len(),
        word == "def "@ || word == "class "@,
        is_name(name),
        ends_a_name(tail),
        lines(content)[n] == word + name + tail,
        0 <= j < candidates.len(),
        candidates[j].content is Some,
        names(candidates[j].content->0, front, name, behind),
    ensures
        exists|e: ImpactedV| #[trigger]
            report_of(changed, candidates, truncated).impacted.contains(e) && e.path
                == candidates[j].path && e.distance == 1 && links_target(
                e.links,
                changed[i].path,
            ),
{
    a_python_definition_is_a_symbol(lines(content), n, word, name, tail);
    whoever_names_a_symbol_is_listed(
        changed,
        candidates,
        truncated,
        i,
        content,
        name,
        j,
        front,
        behind,
    );
}

/// Whoever imports a changed file is found: a report that was not cut short lists every
/// candidate with a line that begins with `use`, `import` or `from` and holds the file's name
/// as a whole word, as a direct import of it.
pub proof fn whoever_imports_a_file_is_listed(
    changed: Seq<ScannedV>,
    candidates: Seq<ScannedV>,
    truncated: bool,
    i: int,
    j: int,
    n: int,
    word: Seq<char>,
    front: Seq<char>,
    behind: Seq<char>,
)
    requires
        !report_of(changed, candidates, truncated).truncated,
        0 <= i < changed.len(),
        is_source(changed[i].path),
        file_stem(changed[i].path).len() > 0,
        0 <= j < candidates.len(),
        candidates[j].content is Some,
        0 <= n < lines(candidates[j].content->0).len(),
        word == "use "@ || word == "import "@ || word == "from "@,
        has_prefix(lines(candidates[j].content->0)[n], word),
        names(lines(candidates[j].content->0)[n], front, file_stem(changed[i].path), behind),
    ensures
        exists|e: ImpactedV| #[trigger]
            report_of(changed, candidates, truncated).impacted.contains(e) && e.path
                == candidates[j].path && e.distance == 1 && e.kind == "import"@ && imports_target(
                e.links,
                changed[i].path,
            ),
{
    reveal_strlit("use ");
    reveal_strlit("import ");
    reveal_strlit("from ");
    let text = candidates[j].content->0;
    let line = lines(text)[n];
    assert(line.subrange(0, word.len() as int)[0] == line[0]);
    lemma_no_indent(line);
    let sigs = changed_of(changed).signatures;
    let k = lemma_signature_kept(changed, i);
    lemma_names(line, front, file_stem(changed[i].path), behind);
    lemma_imported(lines(text), sigs, n, k);
    let first = import_links(lines(text), sigs);
    let x = choose|x: int|
        0 <= x < first.len() && (#[trigger] first[x]).target == changed[i].path && first[x].kind
            == "import"@;
    assert(first.contains(first[x]));
    lemma_references_keep(first, text, sigs, first[x]);
    let links = direct_links(candidates[j], sigs);
    let at = choose|at: int| 0 <= at < links.len() && links[at] == first[x];
    let e = lemma_reported(changed, candidates, truncated, j);
    lemma_entry_has(candidates[j].path, 1, links, at);
    let m = choose|m: int| 0 <= m < e.links.len() && e.links[m] == links[at];
    assert(e.links[m].target == changed[i].path && e.links[m].kind == "import"@);
}

// ---------------------------------------------------------------------------
// Which files are looked at
// ---------------------------------------------------------------------------

/// The extensions of source files.
pub proof fn which_extensions_are_source(path: Seq<char>)
    ensures
        is_source(path) <==> {
            let e = extension_of(path);
            ||| e == "rs"@
            ||| e == "ts"@
            ||| e == "tsx"@
            ||| e == "js"@
            ||| e == "jsx"@
            ||| e == "mjs"@
            ||| e == "cjs"@
            ||| e == "cs"@
            ||| e == "py"@
            ||| e == "go"@
            ||| e == "java"@
            ||| e == "kt"@
            ||| e == "swift"@
            ||| e == "rb"@
            ||| e == "php"@
            ||| e == "vue"@
            ||| e == "svelte"@
        },
{
}

/// The candidates are the tracked source files outside the diff, all of them and no other.
pub proof fn every_tracked_source_file_is_a_candidate(
    listed: Seq<Seq<char>>,
    changed: Seq<Seq<char>>,
    path: Seq<char>,
)
    ensures
        candidates_of(listed, changed).contains(path) <==> listed.contains(path) && is_source(path)
            && !changed.contains(path),
    decreases listed.len(),
{
    let all = candidates_of(listed, changed);
    if listed.len() > 0 {
        let d = listed.drop_last();
        let before = candidates_of(d, changed);
        every_tracked_source_file_is_a_candidate(d, changed, path);
        if d.contains(path) {
            let i = choose|i: int| 0 <= i < d.len() && d[i] == path;
            assert(listed[i] == path);
        }
        if listed.contains(path) {
            let i = choose|i: int| 0 <= i < listed.len() && listed[i] == path;
            if i < d.len() {
                assert(d[i] == path);
            }
        }
        if before.contains(path) {
            let i = choose|i: int| 0 <= i < before.len() && before[i] == path;
            assert(all[i] == path);
        }
        if all.contains(path) {
            let i = choose|i: int| 0 <= i < all.len() && all[i] == path;
            if i < before.len() {
                assert(before[i] == path);
            } else {
                assert(listed[listed.len() - 1] == path);
            }
        }
        if all.len() > before.len() {
            assert(all[all.len() - 1] == listed.last());
            assert(listed[listed.len() - 1] == listed.last());
        }
    }
}

} // verus!
