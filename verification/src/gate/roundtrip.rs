//! Laws of the editable rules: the values a user typed into a gate are the values that a
//! gate shows of the command that then runs.
use crate::clip::byte_len;
use crate::gate::editing::{
    alone, bounds_from, flag_put, grows, lemma_bounds, lemma_first_running, lemma_one_match,
    lemma_put_flag, lemma_put_value, lemma_runs_by_text, lemma_where_matched,
    more_words_run_the_same, same_texts, segments_of, text_put,
};
use crate::gate::rules::{
    body_flag, command_in, commit_command, commit_match, commit_segment_match, edit_of, edited,
    edited_all, edited_value_of, external_flag, external_from, flag_ambiguous, flag_at, flag_count,
    flag_last, flag_part, flag_swallowed, is_flag, matching, message_flag, next_token_hit,
    own_token_hit, param_edit, place, pr_command, pr_match, pr_segment_match, push_opt,
    right_to_left, runs, shown_value, spliced, takes_next, title_flag, EditV, FlagHitV, FlagName,
    GateMatchV, GateParamV, GateRule, Gated, GhPrCreateRule, GitCommitRule,
};
use crate::gate::shell::{heredoc_of, quoted, shell_safe, tokens_of, TokenV};
use crate::gate::splicing::{closed, flag_text, safe_text, tokens_stand_in_order, written};
use crate::json::JsonV;
use crate::text::{has_prefix, is_ascii_alnum, lemma_next_char, next_char};
use vstd::prelude::*;

verus! {

// ---------------------------------------------------------------------------
// Occurrences of a flag
// ---------------------------------------------------------------------------

/// A flag of the usual form: two dashes and a name, one dash and a letter; and not one that
/// names another source of the text.
pub open spec fn usual(f: FlagName) -> bool {
    let long = f.long@;
    let short = f.short@;
    &&& long.len() > 2
    &&& long[0] == '-'
    &&& long[1] == '-'
    &&& safe_text(long)
    &&& forall|i: int| 0 <= i < long.len() ==> #[trigger] long[i] != '='
    &&& short.len() == 2
    &&& short[0] == '-'
    &&& is_ascii_alnum(short[1])
    &&& short[1] != 'F'
    &&& short[1] != 'C'
    &&& !external_flag(long)
}

/// What stands in front of the flag's value in a word that holds both.
pub open spec fn own_prefix(w: Seq<char>, f: FlagName) -> Option<Seq<char>> {
    let long = f.long@;
    let short = f.short@;
    if w == long || w == short {
        None
    } else if has_prefix(w, long.push('=')) {
        Some(long.push('='))
    } else if has_prefix(w, short) {
        if has_prefix(w, short.push('=')) {
            Some(short.push('='))
        } else {
            Some(short)
        }
    } else {
        None
    }
}

proof fn lemma_flag_at(seg: Seq<TokenV>, f: FlagName, i: int)
    ensures
        flag_at(seg, f, i) == (if takes_next(seg[i].text, f) {
            next_token_hit(seg, i)
        } else {
            match own_prefix(seg[i].text, f) {
                Some(p) => Some(own_token_hit(seg[i], p)),
                None => None,
            }
        }),
        takes_next(seg[i].text, f) ==> own_prefix(seg[i].text, f) is None,
{
    let w = seg[i].text;
    let short = f.short@;
    if has_prefix(w, short) && w.len() <= short.len() {
        assert(w =~= short);
    }
}

/// Whether the flag occurs once, in the `h`th word.
pub open spec fn only_hit(seg: Seq<TokenV>, f: FlagName, h: int) -> bool {
    &&& 0 <= h < seg.len()
    &&& flag_at(seg, f, h) is Some
    &&& forall|i: int| 0 <= i < seg.len() && i != h ==> #[trigger] flag_at(seg, f, i) is None
}

/// Whether the flag does not occur.
pub open spec fn no_hit(seg: Seq<TokenV>, f: FlagName) -> bool {
    forall|i: int| 0 <= i < seg.len() ==> #[trigger] flag_at(seg, f, i) is None
}

proof fn lemma_only_hit(seg: Seq<TokenV>, f: FlagName, h: int, n: int)
    requires
        only_hit(seg, f, h),
        0 <= n <= seg.len(),
    ensures
        flag_count(seg, f, n) == (if n <= h {
            0nat
        } else {
            1nat
        }),
        flag_last(seg, f, n) == (if n <= h {
            None
        } else {
            flag_at(seg, f, h)
        }),
    decreases n,
{
    if n > 0 {
        lemma_only_hit(seg, f, h, n - 1);
        if n - 1 != h {
            assert(flag_at(seg, f, n - 1) is None);
        }
    }
}

proof fn lemma_no_hit(seg: Seq<TokenV>, f: FlagName, n: int)
    requires
        no_hit(seg, f),
        0 <= n <= seg.len(),
    ensures
        flag_count(seg, f, n) == 0,
        flag_last(seg, f, n) is None,
    decreases n,
{
    if n > 0 {
        lemma_no_hit(seg, f, n - 1);
        assert(flag_at(seg, f, n - 1) is None);
    }
}

proof fn lemma_count_zero(seg: Seq<TokenV>, f: FlagName, n: int)
    requires
        flag_count(seg, f, n) == 0,
    ensures
        forall|i: int| 0 <= i < n ==> #[trigger] flag_at(seg, f, i) is None,
    decreases n,
{
    if n > 0 {
        lemma_count_zero(seg, f, n - 1);
    }
}

proof fn lemma_count_one(seg: Seq<TokenV>, f: FlagName, n: int) -> (h: int)
    requires
        flag_count(seg, f, n) == 1,
    ensures
        0 <= h < n,
        flag_at(seg, f, h) is Some,
        forall|i: int| 0 <= i < n && i != h ==> #[trigger] flag_at(seg, f, i) is None,
    decreases n,
{
    if flag_at(seg, f, n - 1) is Some {
        lemma_count_zero(seg, f, n - 1);
        n - 1
    } else {
        lemma_count_one(seg, f, n - 1)
    }
}

/// Where the word of a hit's value stands: behind the flag, or it is the flag's own word.
pub open spec fn value_index(hit: FlagHitV, h: int) -> int {
    if hit.prefix.len() == 0 {
        h + 1
    } else {
        h
    }
}

/// Whether a value can stand in the place of the flag's value: alone it does not look like
/// a flag; right behind the flag's letter there is one, and it does not look like the
/// equals sign.
pub open spec fn fits(f: FlagName, prefix: Seq<char>, v: Seq<char>) -> bool {
    if prefix.len() == 0 {
        !is_flag(v)
    } else if prefix == f.short@ {
        v.len() > 0 && v[0] != '='
    } else {
        true
    }
}

/// A word that does not look like a flag is none.
proof fn lemma_no_flag(w: Seq<char>, f: FlagName)
    requires
        usual(f),
        !is_flag(w),
    ensures
        !takes_next(w, f),
        own_prefix(w, f) is None,
        w != f.long@,
        w != f.short@,
        !external_flag(flag_part(w)),
{
    let long = f.long@;
    let short = f.short@;
    if has_prefix(w, long.push('=')) {
        assert(w.subrange(0, long.push('=').len() as int)[0] == w[0]);
        assert(long.push('=')[0] == '-');
    }
    if has_prefix(w, short) {
        assert(w.subrange(0, 2)[0] == w[0]);
    }
    lemma_next_char(w, '=', 0);
    lemma_external(flag_part(w));
    if flag_part(w).len() > 0 {
        assert(flag_part(w)[0] == w[0]);
    }
}

/// Flags that name another source begin with two dashes, or are `-F` or `-C`.
proof fn lemma_external(w: Seq<char>)
    ensures
        external_flag(w) ==> w.len() >= 2 && w[0] == '-' && (w[1] == '-' || w[1] == 'F' || w[1]
            == 'C'),
{
    reveal_strlit("-F");
    reveal_strlit("--file");
    reveal_strlit("--body-file");
    reveal_strlit("-C");
    reveal_strlit("--reuse-message");
    reveal_strlit("--fill");
    reveal_strlit("--fill-first");
    reveal_strlit("--fill-verbose");
    reveal_strlit("--template");
}

/// A flag's own word, with another value in it, is the flag's own word with that value.
proof fn lemma_own_word(p: Seq<char>, v: Seq<char>, f: FlagName)
    requires
        usual(f),
        p == f.long@.push('=') || p == f.short@.push('=') || p == f.short@,
        fits(f, p, v),
    ensures
        !takes_next(p + v, f),
        own_prefix(p + v, f) == Some(p),
        (p + v).subrange(p.len() as int, (p + v).len() as int) == v,
        is_flag(p + v),
        !external_flag(flag_part(p + v)),
        p.len() > 0,
{
    let long = f.long@;
    let short = f.short@;
    let w = p + v;
    assert(w.subrange(p.len() as int, w.len() as int) =~= v);
    assert(w[0] == p[0]);
    lemma_next_char(w, '=', 0);
    let e = next_char(w, '=', 0);
    lemma_external(flag_part(w));
    if p == long.push('=') {
        assert(has_prefix(w, long.push('='))) by {
            assert(w.subrange(0, p.len() as int) =~= p);
        }
        assert(w.len() > long.len());
        assert(w[long.len() as int] == '=');
        assert(e == long.len()) by {
            assert forall|i: int| 0 <= i < long.len() implies w[i] != '=' by {
                assert(w[i] == long[i]);
            }
        }
        assert(flag_part(w) =~= long);
        assert(w[1] == long[1]);
    } else {
        assert(w[1] == short[1]);
        assert(w != long);
        if has_prefix(w, long.push('=')) {
            assert(w.subrange(0, long.push('=').len() as int)[1] == w[1]);
            assert(long.push('=')[1] == '-');
        }
        assert(has_prefix(w, short)) by {
            assert(w.subrange(0, 2) =~= short);
        }
        assert(w.len() > 2);
        if p == short.push('=') {
            assert(w.subrange(0, 3) =~= p);
        } else {
            if has_prefix(w, short.push('=')) {
                assert(w.subrange(0, 3)[2] == w[2]);
                assert(w[2] == v[0]);
            }
        }
        assert(e >= 2) by {
            if e < 2 {
                assert(w[e] == '=');
            }
        }
        assert(flag_part(w)[1] == w[1]);
    }
}

/// Two words with the same text, and with the same one behind them where that counts, say
/// the same of a flag.
proof fn lemma_same_hit(a: Seq<TokenV>, i: int, b: Seq<TokenV>, j: int, f: FlagName)
    requires
        a[i].text == b[j].text,
        takes_next(a[i].text, f) ==> {
            &&& i + 1 < a.len() <==> j + 1 < b.len()
            &&& i + 1 < a.len() ==> a[i + 1].text == b[j + 1].text
        },
    ensures
        flag_at(a, f, i) is Some == flag_at(b, f, j) is Some,
        flag_at(a, f, i) is Some ==> flag_at(a, f, i)->0.value == flag_at(b, f, j)->0.value,
        flag_at(a, f, i) is Some ==> flag_at(a, f, i)->0.prefix == flag_at(b, f, j)->0.prefix,
{
    lemma_flag_at(a, f, i);
    lemma_flag_at(b, f, j);
}

/// A value that fits, in the place of the flag's value, is the flag's value.
proof fn lemma_value_put(a: Seq<TokenV>, b: Seq<TokenV>, f: FlagName, h: int, v: Seq<char>)
    requires
        usual(f),
        only_hit(a, f, h),
        !flag_ambiguous(a, f),
        fits(f, flag_at(a, f, h)->0.prefix, v),
        text_put(
            a,
            b,
            value_index(flag_at(a, f, h)->0, h),
            flag_at(a, f, h)->0.prefix + v,
        ),
    ensures
        only_hit(b, f, h),
        flag_at(b, f, h)->0.value == v,
        !flag_ambiguous(b, f),
{
    let hit = flag_at(a, f, h)->0;
    let g = value_index(hit, h);
    let p = hit.prefix;
    lemma_flag_at(a, f, h);
    lemma_flag_at(b, f, h);
    if p.len() == 0 {
        assert(takes_next(a[h].text, f)) by {
            if !takes_next(a[h].text, f) {
                lemma_own_prefix_is_some_text(a[h].text, f);
            }
        }
        assert(p + v =~= v);
        assert(b[h] == a[h]);
        lemma_no_flag(v, f);
        lemma_flag_at(b, f, g);
    } else {
        assert(!takes_next(a[h].text, f));
        lemma_own_word(p, v, f);
    }
    assert(flag_at(b, f, h) is Some && flag_at(b, f, h)->0.value == v);
    assert forall|i: int| 0 <= i < b.len() && i != h implies #[trigger] flag_at(b, f, i) is None by {
        assert(flag_at(a, f, i) is None);
        if i != g {
            lemma_flag_at(a, f, i);
            if i < g {
                assert(b[i] == a[i]);
            }
            if takes_next(a[i].text, f) {
                // It is the last word, so no other word can be its value.
                assert(i + 1 >= a.len());
            }
            lemma_same_hit(a, i, b, i, f);
        }
    }
    assert forall|i: int| 0 <= i < b.len() implies !#[trigger] flag_swallowed(b, f, i) by {
        assert(!flag_swallowed(a, f, i));
        if i < g {
            assert(b[i] == a[i]);
        }
        if i != h && i != g {
            assert(flag_at(a, f, i) is None);
            lemma_flag_at(a, f, i);
        }
    }
}

/// In the flag's own word something stands in front of the value.
proof fn lemma_own_prefix_is_some_text(w: Seq<char>, f: FlagName)
    requires
        usual(f),
    ensures
        own_prefix(w, f) matches Some(p) ==> p.len() > 0,
{
}

/// The flag's own word looks like a flag.
proof fn lemma_own_word_is_a_flag(w: Seq<char>, f: FlagName)
    requires
        usual(f),
        own_prefix(w, f) is Some,
    ensures
        is_flag(w),
{
    let p = own_prefix(w, f)->0;
    assert(has_prefix(w, p));
    assert(w.subrange(0, p.len() as int)[0] == w[0]);
    assert(p[0] == '-');
}

/// Whether no word can be an occurrence of both flags.
pub open spec fn apart(f: FlagName, o: FlagName) -> bool {
    forall|w: Seq<char>| #![trigger takes_next(w, o)] #![trigger own_prefix(w, o)]
        takes_next(w, f) || own_prefix(w, f) is Some ==> !takes_next(w, o) && own_prefix(w, o)
            is None
}

/// A value in the place of one flag's value leaves another flag as it is.
proof fn lemma_value_put_other(
    a: Seq<TokenV>,
    b: Seq<TokenV>,
    f: FlagName,
    o: FlagName,
    h: int,
    v: Seq<char>,
)
    requires
        usual(f),
        usual(o),
        !f.cluster,
        !o.cluster,
        apart(f, o),
        only_hit(a, f, h),
        !flag_ambiguous(a, f),
        !flag_ambiguous(a, o),
        fits(f, flag_at(a, f, h)->0.prefix, v),
        text_put(
            a,
            b,
            value_index(flag_at(a, f, h)->0, h),
            flag_at(a, f, h)->0.prefix + v,
        ),
    ensures
        !flag_ambiguous(b, o),
        no_hit(a, o) ==> no_hit(b, o),
        forall|k: int| #[trigger]
            only_hit(a, o, k) ==> only_hit(b, o, k) && flag_at(b, o, k)->0.value == flag_at(
                a,
                o,
                k,
            )->0.value && flag_at(b, o, k)->0.prefix == flag_at(a, o, k)->0.prefix,
{
    let hit = flag_at(a, f, h)->0;
    let g = value_index(hit, h);
    let p = hit.prefix;
    lemma_flag_at(a, f, h);
    assert(!takes_next(a[h].text, o) && own_prefix(a[h].text, o) is None);
    if p.len() == 0 {
        assert(takes_next(a[h].text, f)) by {
            if !takes_next(a[h].text, f) {
                lemma_own_prefix_is_some_text(a[h].text, f);
            }
        }
        assert(p + v =~= v);
        lemma_no_flag(v, o);
    } else {
        lemma_own_word(p, v, f);
        assert(own_prefix(p + v, f) is Some);
        lemma_own_word_is_a_flag(a[h].text, f);
    }
    lemma_flag_at(b, o, g);
    // The word that was there is no occurrence of the other flag, nor its value.
    assert(flag_at(a, o, g) is None) by {
        lemma_flag_at(a, o, g);
        if p.len() == 0 {
            assert(!flag_swallowed(a, f, h));
            lemma_no_flag(a[g].text, o);
        }
    }
    assert forall|i: int| 0 <= i < b.len() && i != g implies flag_at(a, o, i) is Some
        == #[trigger] flag_at(b, o, i) is Some && (flag_at(a, o, i) is Some ==> flag_at(
        a,
        o,
        i,
    )->0.value == flag_at(b, o, i)->0.value && flag_at(a, o, i)->0.prefix == flag_at(
        b,
        o,
        i,
    )->0.prefix) by {
        if i < g {
            assert(b[i] == a[i]);
        }
        if takes_next(a[i].text, o) {
            assert(!flag_swallowed(a, o, i));
            assert(i + 1 != g);
        }
        lemma_same_hit(a, i, b, i, o);
    }
    assert forall|i: int| 0 <= i < b.len() implies !#[trigger] flag_swallowed(b, o, i) by {
        assert(!flag_swallowed(a, o, i));
        if i < g {
            assert(b[i] == a[i]);
        }
    }
    assert forall|k: int| #[trigger] only_hit(a, o, k) implies only_hit(b, o, k) && flag_at(
        b,
        o,
        k,
    )->0.value == flag_at(a, o, k)->0.value && flag_at(b, o, k)->0.prefix == flag_at(
        a,
        o,
        k,
    )->0.prefix by {
        assert(k != g);
        assert(flag_at(b, o, k) is Some);
        assert forall|i: int| 0 <= i < b.len() && i != k implies #[trigger] flag_at(b, o, i)
            is None by {
            if i != g {
                assert(flag_at(a, o, i) is None);
            }
        }
    }
    if no_hit(a, o) {
        assert forall|i: int| 0 <= i < b.len() implies #[trigger] flag_at(b, o, i) is None by {
            if i != g {
                assert(flag_at(a, o, i) is None);
            }
        }
    }
}

/// A flag and its value, behind a word that takes none, are the flag and its value.
proof fn lemma_flag_put(a: Seq<TokenV>, b: Seq<TokenV>, f: FlagName, g: int, v: Seq<char>)
    requires
        usual(f),
        no_hit(a, f),
        !flag_ambiguous(a, f),
        flag_put(a, b, g, f.long@, v),
        !takes_next(a[g].text, f),
        !is_flag(v),
    ensures
        only_hit(b, f, g + 1),
        flag_at(b, f, g + 1)->0.value == v,
        flag_at(b, f, g + 1)->0.prefix.len() == 0,
        !flag_ambiguous(b, f),
{
    lemma_no_flag(v, f);
    lemma_flag_at(b, f, g + 1);
    lemma_flag_at(b, f, g + 2);
    assert forall|i: int| 0 <= i < b.len() && i != g + 1 implies #[trigger] flag_at(b, f, i)
        is None by {
        if i <= g {
            assert(b[i] == a[i]);
            assert(flag_at(a, f, i) is None);
            if i < g {
                assert(b[i + 1] == a[i + 1]);
            }
            lemma_same_hit(a, i, b, i, f);
        } else if i > g + 2 {
            lemma_moved_hit(a, b, f.long@, v, g, f, i - 2);
            assert(flag_at(a, f, i - 2) is None);
        }
    }
    assert forall|i: int| 0 <= i < b.len() implies !#[trigger] flag_swallowed(b, f, i) by {
        if i <= g {
            assert(b[i] == a[i]);
            assert(!flag_swallowed(a, f, i));
            if i < g {
                assert(b[i + 1] == a[i + 1]);
            }
        } else if i > g + 2 {
            lemma_moved_hit(a, b, f.long@, v, g, f, i - 2);
            assert(!flag_swallowed(a, f, i - 2));
        }
    }
}

/// Behind the two words everything is as it was.
proof fn lemma_moved_hit(
    a: Seq<TokenV>,
    b: Seq<TokenV>,
    flag: Seq<char>,
    v: Seq<char>,
    g: int,
    f: FlagName,
    i: int,
)
    requires
        flag_put(a, b, g, flag, v),
        g < i < a.len(),
    ensures
        flag_at(a, f, i) is Some == flag_at(b, f, i + 2) is Some,
        flag_at(a, f, i) is Some ==> flag_at(a, f, i)->0.value == flag_at(b, f, i + 2)->0.value,
        flag_at(a, f, i) is Some ==> flag_at(a, f, i)->0.prefix == flag_at(
            b,
            f,
            i + 2,
        )->0.prefix,
        flag_swallowed(a, f, i) == flag_swallowed(b, f, i + 2),
{
    assert(b[i + 2].text == a[i].text);
    if i + 1 < a.len() {
        assert(b[(i + 1) + 2].text == a[i + 1].text);
    }
    lemma_same_hit(a, i, b, i + 2, f);
}

/// A word's place, when two words came in behind `g`.
pub open spec fn moved_index(k: int, g: int) -> int {
    if k > g {
        k + 2
    } else {
        k
    }
}

/// One flag and its value leave another flag as it is.
proof fn lemma_flag_put_other(
    a: Seq<TokenV>,
    b: Seq<TokenV>,
    f: FlagName,
    o: FlagName,
    g: int,
    v: Seq<char>,
)
    requires
        usual(f),
        usual(o),
        apart(f, o),
        !flag_ambiguous(a, o),
        flag_put(a, b, g, f.long@, v),
        !takes_next(a[g].text, o),
        !is_flag(v),
    ensures
        !flag_ambiguous(b, o),
        no_hit(a, o) ==> no_hit(b, o),
        forall|k: int| #[trigger]
            only_hit(a, o, k) ==> {
                let m = moved_index(k, g);
                &&& only_hit(b, o, m)
                &&& flag_at(b, o, m)->0.value == flag_at(a, o, k)->0.value
                &&& flag_at(b, o, m)->0.prefix == flag_at(a, o, k)->0.prefix
            },
{
    lemma_no_flag(v, o);
    assert(takes_next(f.long@, f));
    assert(!takes_next(f.long@, o) && own_prefix(f.long@, o) is None);
    lemma_flag_at(b, o, g + 1);
    lemma_flag_at(b, o, g + 2);
    assert forall|i: int| 0 <= i < a.len() implies {
        let m = moved_index(i, g);
        &&& #[trigger] flag_at(a, o, i) is Some == flag_at(b, o, m) is Some
        &&& flag_at(a, o, i) is Some ==> flag_at(a, o, i)->0.value == flag_at(b, o, m)->0.value
        &&& flag_at(a, o, i) is Some ==> flag_at(a, o, i)->0.prefix == flag_at(
            b,
            o,
            m,
        )->0.prefix
    } by {
        if i <= g {
            assert(b[i] == a[i]);
            if i < g {
                assert(b[i + 1] == a[i + 1]);
            }
            lemma_same_hit(a, i, b, i, o);
        } else {
            lemma_moved_hit(a, b, f.long@, v, g, o, i);
        }
    }
    assert forall|i: int| 0 <= i < b.len() implies !#[trigger] flag_swallowed(b, o, i) by {
        if i <= g {
            assert(b[i] == a[i]);
            assert(!flag_swallowed(a, o, i));
            if i < g {
                assert(b[i + 1] == a[i + 1]);
            }
        } else if i > g + 2 {
            lemma_moved_hit(a, b, f.long@, v, g, o, i - 2);
            assert(!flag_swallowed(a, o, i - 2));
        }
    }
    assert forall|k: int| #[trigger] only_hit(a, o, k) implies {
        let m = moved_index(k, g);
        &&& only_hit(b, o, m)
        &&& flag_at(b, o, m)->0.value == flag_at(a, o, k)->0.value
        &&& flag_at(b, o, m)->0.prefix == flag_at(a, o, k)->0.prefix
    } by {
        let m = moved_index(k, g);
        assert(flag_at(a, o, k) is Some);
        assert forall|i: int| 0 <= i < b.len() && i != m implies #[trigger] flag_at(b, o, i)
            is None by {
            if i <= g {
                assert(flag_at(a, o, i) is None);
                assert(moved_index(i, g) == i);
            } else if i > g + 2 {
                assert(flag_at(a, o, i - 2) is None);
                assert(moved_index(i - 2, g) == i);
            }
        }
    }
    if no_hit(a, o) {
        assert forall|i: int| 0 <= i < b.len() implies #[trigger] flag_at(b, o, i) is None by {
            if i <= g {
                assert(flag_at(a, o, i) is None);
                assert(moved_index(i, g) == i);
            } else if i > g + 2 {
                assert(flag_at(a, o, i - 2) is None);
                assert(moved_index(i - 2, g) == i);
            }
        }
    }
}

// ---------------------------------------------------------------------------
// Other sources of the text
// ---------------------------------------------------------------------------

/// Whether no word names another source.
pub open spec fn sourced_here(seg: Seq<TokenV>) -> bool {
    forall|i: int| 0 <= i < seg.len() ==> !external_flag(flag_part((#[trigger] seg[i]).text))
}

proof fn lemma_external_from(seg: Seq<TokenV>, i: int)
    requires
        0 <= i,
    ensures
        external_from(seg, i) is None <==> forall|x: int|
            i <= x < seg.len() ==> !external_flag(flag_part((#[trigger] seg[x]).text)),
    decreases seg.len() - i,
{
    if i < seg.len() {
        lemma_external_from(seg, i + 1);
        if external_flag(flag_part(seg[i].text)) {
        } else if external_from(seg, i + 1) is None {
            assert forall|x: int| i <= x < seg.len() implies !external_flag(
                flag_part((#[trigger] seg[x]).text),
            ) by {
                if x == i {
                }
            }
        }
    }
}

proof fn lemma_sourced_value(a: Seq<TokenV>, b: Seq<TokenV>, g: int, w: Seq<char>)
    requires
        sourced_here(a),
        text_put(a, b, g, w),
        !external_flag(flag_part(w)),
    ensures
        sourced_here(b),
{
    assert forall|i: int| 0 <= i < b.len() implies !external_flag(
        flag_part((#[trigger] b[i]).text),
    ) by {
        if i < g {
            assert(b[i] == a[i]);
        } else if i > g {
            assert(b[i].text == a[i].text);
        }
    }
}

proof fn lemma_sourced_flag(
    a: Seq<TokenV>,
    b: Seq<TokenV>,
    g: int,
    f: FlagName,
    v: Seq<char>,
)
    requires
        sourced_here(a),
        usual(f),
        flag_put(a, b, g, f.long@, v),
        !is_flag(v),
    ensures
        sourced_here(b),
{
    lemma_no_flag(v, f);
    let long = f.long@;
    assert(flag_part(long) =~= long) by {
        lemma_next_char(long, '=', 0);
        let e = next_char(long, '=', 0);
        if e < long.len() {
            assert(long[e] == '=');
        }
    }
    assert forall|i: int| 0 <= i < b.len() implies !external_flag(
        flag_part((#[trigger] b[i]).text),
    ) by {
        if i <= g {
            assert(b[i] == a[i]);
        } else if i > g + 2 {
            assert(b[(i - 2) + 2].text == a[i - 2].text);
        }
    }
}

// ---------------------------------------------------------------------------
// One edit of a command
// ---------------------------------------------------------------------------

/// The tokens of a segment stand in the command, in their order.
proof fn lemma_segment_stands(s: Seq<char>, q: int, g: int, h: int)
    requires
        0 <= q < segments_of(s).len(),
        0 <= g < segments_of(s)[q].len(),
        0 <= h < segments_of(s)[q].len(),
    ensures
        ({
            let seg = segments_of(s)[q];
            &&& 0 <= seg[g].start < seg[g].end <= byte_len(s)
            &&& g < h ==> seg[g].end <= seg[h].start
        }),
{
    let ts = tokens_of(s);
    lemma_bounds(ts, 0);
    let (x, y) = bounds_from(ts, 0)[q];
    assert(segments_of(s)[q] == ts.subrange(x, y));
    tokens_stand_in_order(s, x + g, x + h);
}

/// The edit that puts a value in the place of a hit's.
pub open spec fn hit_edit(hit: FlagHitV, v: Seq<char>) -> EditV {
    EditV { start: hit.start, end: hit.end, text: hit.prefix + quoted(v) }
}

/// The edit that puts a flag and its value behind a word.
pub open spec fn new_edit(seg: Seq<TokenV>, g: int, f: FlagName, v: Seq<char>) -> EditV {
    EditV { start: seg[g].end, end: seg[g].end, text: flag_text(f.long@, v) }
}

/// A hit's value stands in the word that holds it, behind its prefix.
proof fn lemma_hit_stands(seg: Seq<TokenV>, f: FlagName, h: int)
    requires
        usual(f),
        0 <= h < seg.len(),
        flag_at(seg, f, h) is Some,
    ensures
        ({
            let hit = flag_at(seg, f, h)->0;
            let g = value_index(hit, h);
            &&& h <= g < seg.len()
            &&& hit.start == seg[g].start
            &&& hit.end == seg[g].end
            &&& safe_text(hit.prefix)
            &&& hit.prefix.len() > 0 ==> own_prefix(seg[h].text, f) == Some(hit.prefix)
            &&& hit.prefix.len() == 0 ==> takes_next(seg[h].text, f)
        }),
{
    lemma_flag_at(seg, f, h);
    lemma_own_prefix_is_some_text(seg[h].text, f);
    let short = f.short@;
    let long = f.long@;
    assert(safe_text(short)) by {
        assert forall|k: int| 0 <= k < short.len() implies shell_safe(#[trigger] short[k]) by {
            if k == 0 {
            }
        }
    }
    assert(safe_text(short.push('='))) by {
        assert forall|k: int| 0 <= k < 3 implies shell_safe(#[trigger] short.push('=')[k]) by {
            if k < 2 {
                assert(short.push('=')[k] == short[k]);
            }
        }
    }
    assert(safe_text(long.push('='))) by {
        assert forall|k: int| 0 <= k < long.len() + 1 implies shell_safe(
            #[trigger] long.push('=')[k],
        ) by {
            if k < long.len() {
                assert(long.push('=')[k] == long[k]);
            }
        }
    }
}

proof fn lemma_edit_hit(op: Gated, s: Seq<char>, q: int, f: FlagName, h: int, v: Seq<char>)
    requires
        usual(f),
        alone(op, s, q),
        only_hit(segments_of(s)[q], f, h),
    ensures
        ({
            let seg = segments_of(s)[q];
            let hit = flag_at(seg, f, h)->0;
            let t = edited(s, hit_edit(hit, v));
            &&& alone(op, t, q)
            &&& text_put(seg, segments_of(t)[q], value_index(hit, h), hit.prefix + v)
        }),
{
    let seg = segments_of(s)[q];
    let hit = flag_at(seg, f, h)->0;
    let g = value_index(hit, h);
    lemma_hit_stands(seg, f, h);
    lemma_segment_stands(s, q, g, g);
    assert(hit_edit(hit, v).text == written(hit.prefix, v));
    lemma_put_value(op, s, q, g, hit.prefix, v);
}

proof fn lemma_edit_new(op: Gated, s: Seq<char>, q: int, f: FlagName, g: int, v: Seq<char>)
    requires
        usual(f),
        alone(op, s, q),
        0 <= g < segments_of(s)[q].len(),
        segments_of(s)[q][g].end < byte_len(s) || closed(s),
    ensures
        ({
            let seg = segments_of(s)[q];
            let t = edited(s, new_edit(seg, g, f, v));
            &&& alone(op, t, q)
            &&& flag_put(seg, segments_of(t)[q], g, f.long@, v)
            &&& seg[g].end < byte_len(t)
        }),
{
    let seg = segments_of(s)[q];
    lemma_segment_stands(s, q, g, g);
    lemma_put_flag(op, s, q, g, f.long@, v);
}

// ---------------------------------------------------------------------------
// The edited segment
// ---------------------------------------------------------------------------

/// The last word among the first `n` in which the flag occurs.
pub open spec fn hit_index(seg: Seq<TokenV>, f: FlagName, n: int) -> int
    decreases n,
{
    if n <= 0 {
        -1
    } else if flag_at(seg, f, n - 1) is Some {
        n - 1
    } else {
        hit_index(seg, f, n - 1)
    }
}

proof fn lemma_hit_index(seg: Seq<TokenV>, f: FlagName, h: int, n: int)
    requires
        only_hit(seg, f, h),
        h < n <= seg.len(),
    ensures
        hit_index(seg, f, n) == h,
    decreases n,
{
    if n - 1 != h {
        assert(flag_at(seg, f, n - 1) is None);
        lemma_hit_index(seg, f, h, n - 1);
    }
}

/// A token with another text.
pub open spec fn retold(t: TokenV, text: Seq<char>) -> TokenV {
    TokenV { text, is_separator: t.is_separator, start: t.start, end: t.end }
}

/// A segment with a value in the place of the flag's, or with the flag and the value behind
/// it where it had none.
pub open spec fn with_value(seg: Seq<TokenV>, f: FlagName, v: Seq<char>) -> Seq<TokenV> {
    let n = seg.len() as int;
    match flag_last(seg, f, n) {
        Some(hit) => {
            let g = value_index(hit, hit_index(seg, f, n));
            seg.update(g, retold(seg[g], hit.prefix + v))
        },
        None => if v.len() == 0 {
            seg
        } else {
            seg.push(retold(seg.last(), f.long@)).push(retold(seg.last(), v))
        },
    }
}

/// Whether a value can be put for a flag: one in the place of another must fit there; a new
/// one must not look like a flag, and the last word must not take it for its own.
pub open spec fn can_take(seg: Seq<TokenV>, f: FlagName, v: Seq<char>) -> bool {
    match flag_last(seg, f, seg.len() as int) {
        Some(hit) => fits(f, hit.prefix, v),
        None => v.len() > 0 ==> !is_flag(v) && !takes_next(seg.last().text, f),
    }
}

/// Whether a value has to be put behind the segment, flag and all.
pub open spec fn is_new(seg: Seq<TokenV>, f: FlagName, v: Seq<char>) -> bool {
    flag_last(seg, f, seg.len() as int) is None && v.len() > 0
}

/// Whether something can be put behind the segment.
pub open spec fn open_ended(s: Seq<char>, seg: Seq<TokenV>) -> bool {
    seg.last().end < byte_len(s) || closed(s)
}

/// Whether the flag's value in a segment is `v`, without a doubt.
pub open spec fn says(seg: Seq<TokenV>, f: FlagName, v: Seq<char>) -> bool {
    &&& !flag_ambiguous(seg, f)
    &&& flag_count(seg, f, seg.len() as int) <= 1
    &&& match flag_last(seg, f, seg.len() as int) {
        Some(hit) => hit.value == v,
        None => v.len() == 0,
    }
}

proof fn lemma_says_hit(seg: Seq<TokenV>, f: FlagName, h: int)
    requires
        only_hit(seg, f, h),
        !flag_ambiguous(seg, f),
    ensures
        says(seg, f, flag_at(seg, f, h)->0.value),
{
    lemma_only_hit(seg, f, h, seg.len() as int);
}

proof fn lemma_says_nothing(seg: Seq<TokenV>, f: FlagName)
    requires
        no_hit(seg, f),
        !flag_ambiguous(seg, f),
    ensures
        says(seg, f, Seq::<char>::empty()),
{
    lemma_no_hit(seg, f, seg.len() as int);
}

/// No text is no here-doc.
proof fn lemma_says_shown(seg: Seq<TokenV>, f: FlagName, v: Seq<char>)
    requires
        says(seg, f, v),
        heredoc_of(v) is None,
    ensures
        shown_value(seg, f) == v,
{
    if v.len() == 0 {
        assert(v =~= seq![]);
    }
}

proof fn lemma_message_flag()
    ensures
        usual(message_flag()),
{
    reveal_strlit("--message");
    reveal_strlit("-m");
    lemma_other_sources();
}

proof fn lemma_other_sources()
    ensures
        !external_flag("--message"@),
        !external_flag("--title"@),
        !external_flag("--body"@),
{
    reveal_strlit("--message");
    reveal_strlit("--title");
    reveal_strlit("--body");
    reveal_strlit("-F");
    reveal_strlit("--file");
    reveal_strlit("--body-file");
    reveal_strlit("-C");
    reveal_strlit("--reuse-message");
    reveal_strlit("--fill");
    reveal_strlit("--fill-first");
    reveal_strlit("--fill-verbose");
    reveal_strlit("--template");
    assert("--message"@.len() == 9);
    assert("--title"@.len() == 7);
    assert("--body"@.len() == 6 && "--body"@[2] == 'b');
    assert("-F"@.len() == 2 && "-C"@.len() == 2);
    assert("--file"@.len() == 6 && "--file"@[2] == 'f');
    assert("--fill"@.len() == 6 && "--fill"@[2] == 'f');
    assert("--body-file"@.len() == 11 && "--reuse-message"@.len() == 15);
    assert("--fill-first"@.len() == 12 && "--fill-verbose"@.len() == 14);
    assert("--template"@.len() == 10);
}

/// One edit of one flag, made in the command.
proof fn lemma_one_edit(s: Seq<char>, e: EditV)
    ensures
        spliced(s, push_opt(seq![], Some(e))) == edited(s, e),
        spliced(s, push_opt(seq![], None)) == s,
{
    let none = Seq::<EditV>::empty();
    let one = none.push(e);
    assert(one.drop_last() =~= none);
    assert(right_to_left(one) == place(right_to_left(none), e));
    assert(right_to_left(one) =~= one);
    assert(edited_all(s, one) == edited(edited_all(s, one.drop_last()), e));
}

/// The edited command commits with the edited message.
proof fn lemma_commit_edited(
    c: Seq<char>,
    params: Seq<GateParamV>,
    v: Seq<char>,
)
    requires
        commit_match(c) matches Some(m) && m.params.len() > 0,
        edited_value_of(params, "message"@) == Some(v),
        can_take(matching(Gated::Commit, segments_of(c))[0], message_flag(), v),
        runs(
            Gated::Commit,
            with_value(matching(Gated::Commit, segments_of(c))[0], message_flag(), v),
        ),
        is_new(matching(Gated::Commit, segments_of(c))[0], message_flag(), v) ==> open_ended(
            c,
            matching(Gated::Commit, segments_of(c))[0],
        ),
        heredoc_of(v) is None,
    ensures
        commit_command(c, params) matches Some(d) && commit_match(d) == Some(commit_shown(v)),
{
    let op = Gated::Commit;
    let f = message_flag();
    lemma_message_flag();
    let segs = segments_of(c);
    assert(matching(op, segs).len() == 1);
    let q = lemma_where_matched(op, segs);
    let seg = segs[q];
    let n = seg.len() as int;
    assert(alone(op, c, q));
    lemma_first_running(op, segs, q, 0);
    assert(commit_segment_match(seg).params.len() > 0);
    lemma_external_from(seg, 0);
    assert(sourced_here(seg));
    lemma_bounds(tokens_of(c), 0);
    assert(n > 0);
    let edit = edit_of(seg, f, v);
    assert(param_edit(seg, f, params, "message"@) == edit);
    let d = commit_command(c, params)->0;
    lemma_one_edit(c, edit->0);
    if flag_count(seg, f, n) == 1 {
        let h = lemma_count_one(seg, f, n);
        lemma_only_hit(seg, f, h, n);
        lemma_hit_index(seg, f, h, n);
        let hit = flag_at(seg, f, h)->0;
        let g = value_index(hit, h);
        lemma_hit_stands(seg, f, h);
        assert(edit == Some(hit_edit(hit, v)));
        lemma_edit_hit(op, c, q, f, h, v);
        let b = segments_of(d)[q];
        lemma_runs_by_text(op, with_value(seg, f, v), b);
        lemma_one_match(op, segments_of(d), q);
        lemma_value_put(seg, b, f, h, v);
        lemma_says_hit(b, f, h);
        if hit.prefix.len() == 0 {
            lemma_no_flag(v, f);
            assert(hit.prefix + v =~= v);
        } else {
            lemma_own_word(hit.prefix, v, f);
        }
        lemma_sourced_value(seg, b, g, hit.prefix + v);
        lemma_external_from(b, 0);
        lemma_says_shown(b, f, v);
    } else {
        lemma_count_zero(seg, f, n);
        assert(no_hit(seg, f));
        lemma_no_hit(seg, f, n);
        if v.len() == 0 {
            assert(d == c);
            lemma_says_nothing(seg, f);
            assert(v =~= seq![]);
            lemma_says_shown(seg, f, v);
        } else {
            let g = n - 1;
            assert(edit == Some(new_edit(seg, g, f, v)));
            lemma_edit_new(op, c, q, f, g, v);
            let b = segments_of(d)[q];
            more_words_run_the_same(op, seg, b);
            lemma_one_match(op, segments_of(d), q);
            lemma_flag_put(seg, b, f, g, v);
            lemma_says_hit(b, f, g + 1);
            lemma_sourced_flag(seg, b, g, f, v);
            lemma_external_from(b, 0);
            lemma_says_shown(b, f, v);
        }
    }
}

proof fn lemma_pr_flags()
    ensures
        usual(title_flag()),
        usual(body_flag()),
        apart(title_flag(), body_flag()),
        apart(body_flag(), title_flag()),
{
    reveal_strlit("--title");
    reveal_strlit("-t");
    reveal_strlit("--body");
    reveal_strlit("-b");
    lemma_other_sources();
    let t = title_flag();
    let b = body_flag();
    assert forall|w: Seq<char>| #![trigger takes_next(w, b)] #![trigger own_prefix(w, b)]
        takes_next(w, t) || own_prefix(w, t) is Some implies !takes_next(w, b) && own_prefix(w, b)
        is None by {
        lemma_flag_letters(w, t);
        if takes_next(w, b) || own_prefix(w, b) is Some {
            lemma_flag_letters(w, b);
        }
    }
    assert forall|w: Seq<char>| #![trigger takes_next(w, t)] #![trigger own_prefix(w, t)]
        takes_next(w, b) || own_prefix(w, b) is Some implies !takes_next(w, t) && own_prefix(w, t)
        is None by {
        lemma_flag_letters(w, b);
        if takes_next(w, t) || own_prefix(w, t) is Some {
            lemma_flag_letters(w, t);
        }
    }
}

/// A flag's word begins as the flag does.
proof fn lemma_flag_letters(w: Seq<char>, f: FlagName)
    requires
        usual(f),
        !f.cluster,
        takes_next(w, f) || own_prefix(w, f) is Some,
    ensures
        w.len() >= 2,
        w[1] == f.short@[1] || (w[1] == '-' && w.len() >= 3 && w[2] == f.long@[2]),
{
    let long = f.long@;
    let short = f.short@;
    if own_prefix(w, f) is Some {
        let p = own_prefix(w, f)->0;
        assert(has_prefix(w, p));
        assert(w.subrange(0, p.len() as int)[1] == w[1]);
        if p == long.push('=') {
            assert(w.subrange(0, p.len() as int)[2] == w[2]);
            assert(p[1] == long[1] && p[2] == long[2]);
        } else {
            assert(p[1] == short[1]);
        }
    }
}

/// Whether two flags of a segment can be told apart and edited.
spec fn clean(seg: Seq<TokenV>, f: FlagName, o: FlagName) -> bool {
    &&& sourced_here(seg)
    &&& !flag_ambiguous(seg, f)
    &&& !flag_ambiguous(seg, o)
}

/// Whether the flag occurs in `b` as it does in `a`.
spec fn hits_kept(a: Seq<TokenV>, k: int, b: Seq<TokenV>, m: int, o: FlagName) -> bool {
    only_hit(a, o, k) ==> {
        &&& only_hit(b, o, m)
        &&& flag_at(b, o, m)->0.value == flag_at(a, o, k)->0.value
        &&& flag_at(b, o, m)->0.prefix == flag_at(a, o, k)->0.prefix
    }
}

/// A value in the place of a flag's, in a segment.
proof fn lemma_place_value(
    a: Seq<TokenV>,
    b: Seq<TokenV>,
    f: FlagName,
    o: FlagName,
    h: int,
    v: Seq<char>,
)
    requires
        usual(f),
        usual(o),
        !f.cluster,
        !o.cluster,
        apart(f, o),
        clean(a, f, o),
        only_hit(a, f, h),
        fits(f, flag_at(a, f, h)->0.prefix, v),
        text_put(
            a,
            b,
            value_index(flag_at(a, f, h)->0, h),
            flag_at(a, f, h)->0.prefix + v,
        ),
    ensures
        clean(b, f, o),
        says(b, f, v),
        only_hit(b, f, h),
        no_hit(a, o) ==> no_hit(b, o),
        forall|k: int| #[trigger] only_hit(a, o, k) ==> hits_kept(a, k, b, k, o),
{
    let p = flag_at(a, f, h)->0.prefix;
    lemma_hit_stands(a, f, h);
    lemma_value_put(a, b, f, h, v);
    lemma_value_put_other(a, b, f, o, h, v);
    lemma_says_hit(b, f, h);
    if p.len() == 0 {
        lemma_no_flag(v, f);
        assert(p + v =~= v);
    } else {
        lemma_own_word(p, v, f);
    }
    lemma_sourced_value(a, b, value_index(flag_at(a, f, h)->0, h), p + v);
}

/// A flag and its value behind a word, in a segment.
proof fn lemma_place_flag(
    a: Seq<TokenV>,
    b: Seq<TokenV>,
    f: FlagName,
    o: FlagName,
    g: int,
    v: Seq<char>,
)
    requires
        usual(f),
        usual(o),
        apart(f, o),
        clean(a, f, o),
        no_hit(a, f),
        flag_put(a, b, g, f.long@, v),
        !takes_next(a[g].text, f),
        !takes_next(a[g].text, o),
        !is_flag(v),
    ensures
        clean(b, f, o),
        says(b, f, v),
        only_hit(b, f, g + 1),
        no_hit(a, o) ==> no_hit(b, o),
        forall|k: int| #[trigger] only_hit(a, o, k) ==> hits_kept(a, k, b, moved_index(k, g), o),
{
    lemma_flag_put(a, b, f, g, v);
    lemma_flag_put_other(a, b, f, o, g, v);
    lemma_says_hit(b, f, g + 1);
    lemma_sourced_flag(a, b, g, f, v);
}

/// The values of two flags stand in different words.
proof fn lemma_values_apart(seg: Seq<TokenV>, f: FlagName, o: FlagName, h: int, k: int)
    requires
        usual(f),
        usual(o),
        !f.cluster,
        !o.cluster,
        apart(f, o),
        clean(seg, f, o),
        only_hit(seg, f, h),
        only_hit(seg, o, k),
    ensures
        value_index(flag_at(seg, f, h)->0, h) != value_index(flag_at(seg, o, k)->0, k),
{
    lemma_hit_stands(seg, f, h);
    lemma_hit_stands(seg, o, k);
    lemma_flag_at(seg, f, h);
    lemma_flag_at(seg, o, k);
    let g = value_index(flag_at(seg, f, h)->0, h);
    if g == value_index(flag_at(seg, o, k)->0, k) {
        assert(h != k);
        assert(!flag_swallowed(seg, f, h));
        assert(!flag_swallowed(seg, o, k));
        if h == g {
            lemma_own_word_is_a_flag(seg[h].text, f);
        } else {
            lemma_own_word_is_a_flag(seg[k].text, o);
        }
    }
}

/// Two edits of a command: the one further right is made first.
proof fn lemma_two_edits(s: Seq<char>, e: EditV, o: EditV)
    ensures
        spliced(s, push_opt(push_opt(seq![], Some(e)), Some(o))) == (if e.start >= o.start {
            edited(edited(s, e), o)
        } else {
            edited(edited(s, o), e)
        }),
{
    let none = Seq::<EditV>::empty();
    let one = none.push(e);
    let two = one.push(o);
    assert(one.drop_last() =~= none);
    assert(two.drop_last() =~= one);
    assert(right_to_left(one) == place(right_to_left(none), e));
    assert(right_to_left(one) =~= one);
    assert(right_to_left(two) == place(one, o));
    let flipped = none.push(o).push(e);
    if e.start >= o.start {
        assert(right_to_left(two) =~= two);
        assert(edited_all(s, two) == edited(edited_all(s, one), o));
        assert(edited_all(s, one) == edited(edited_all(s, none), e));
    } else {
        assert(place(none, o) =~= none.push(o));
        assert(right_to_left(two) =~= flipped);
        assert(flipped.drop_last() =~= none.push(o));
        assert(none.push(o).drop_last() =~= none);
        assert(edited_all(s, flipped) == edited(edited_all(s, none.push(o)), e));
        assert(edited_all(s, none.push(o)) == edited(edited_all(s, none), o));
    }
}

/// Two values in their places: first the one further right.
proof fn lemma_two_values(
    op: Gated,
    s: Seq<char>,
    q: int,
    f: FlagName,
    o: FlagName,
    h: int,
    k: int,
    v: Seq<char>,
    u: Seq<char>,
) -> (d: Seq<char>)
    requires
        usual(f),
        usual(o),
        !f.cluster,
        !o.cluster,
        apart(f, o),
        apart(o, f),
        alone(op, s, q),
        clean(segments_of(s)[q], f, o),
        only_hit(segments_of(s)[q], f, h),
        only_hit(segments_of(s)[q], o, k),
        fits(f, flag_at(segments_of(s)[q], f, h)->0.prefix, v),
        fits(o, flag_at(segments_of(s)[q], o, k)->0.prefix, u),
        value_index(flag_at(segments_of(s)[q], f, h)->0, h) < value_index(
            flag_at(segments_of(s)[q], o, k)->0,
            k,
        ),
    ensures
        ({
            let seg = segments_of(s)[q];
            let hit = flag_at(seg, f, h)->0;
            let other = flag_at(seg, o, k)->0;
            let b = segments_of(d)[q];
            let g = value_index(hit, h);
            let i = value_index(other, k);
            &&& d == edited(edited(s, hit_edit(other, u)), hit_edit(hit, v))
            &&& hit.start < other.start
            &&& alone(op, d, q)
            &&& clean(b, f, o)
            &&& says(b, f, v)
            &&& says(b, o, u)
            &&& same_texts(
                b,
                seg.update(g, retold(seg[g], hit.prefix + v)).update(
                    i,
                    retold(seg[i], other.prefix + u),
                ),
            )
        }),
{
    let seg = segments_of(s)[q];
    let hit = flag_at(seg, f, h)->0;
    let other = flag_at(seg, o, k)->0;
    let g = value_index(hit, h);
    let i = value_index(other, k);
    lemma_hit_stands(seg, f, h);
    lemma_hit_stands(seg, o, k);
    lemma_segment_stands(s, q, g, i);
    lemma_edit_hit(op, s, q, o, k, u);
    let t = edited(s, hit_edit(other, u));
    let a = segments_of(t)[q];
    lemma_place_value(seg, a, o, f, k, u);
    assert(hits_kept(seg, h, a, h, f));
    lemma_hit_stands(a, f, h);
    assert(a[g] == seg[g]);
    assert(hit_edit(flag_at(a, f, h)->0, v) == hit_edit(hit, v));
    lemma_edit_hit(op, t, q, f, h, v);
    let d = edited(t, hit_edit(hit, v));
    let b = segments_of(d)[q];
    lemma_place_value(a, b, f, o, h, v);
    assert(hits_kept(a, k, b, k, o));
    lemma_only_hit(a, o, k, a.len() as int);
    lemma_says_hit(b, o, k);
    let w = seg.update(g, retold(seg[g], hit.prefix + v)).update(
        i,
        retold(seg[i], other.prefix + u),
    );
    assert forall|x: int| 0 <= x < b.len() implies (#[trigger] b[x]).text == w[x].text by {
        if x < g {
            assert(b[x] == a[x] && a[x] == seg[x]);
        } else if x > g && x < i {
            assert(a[x] == seg[x]);
        }
    }
    d
}

/// One flag behind the segment, another flag's value in its place: first the new flag.
proof fn lemma_value_and_flag(
    op: Gated,
    s: Seq<char>,
    q: int,
    f: FlagName,
    o: FlagName,
    h: int,
    v: Seq<char>,
    u: Seq<char>,
) -> (d: Seq<char>)
    requires
        usual(f),
        usual(o),
        !f.cluster,
        !o.cluster,
        apart(f, o),
        apart(o, f),
        alone(op, s, q),
        clean(segments_of(s)[q], f, o),
        only_hit(segments_of(s)[q], f, h),
        no_hit(segments_of(s)[q], o),
        fits(f, flag_at(segments_of(s)[q], f, h)->0.prefix, v),
        !is_flag(u),
        !takes_next(segments_of(s)[q].last().text, f),
        !takes_next(segments_of(s)[q].last().text, o),
        open_ended(s, segments_of(s)[q]),
    ensures
        ({
            let seg = segments_of(s)[q];
            let hit = flag_at(seg, f, h)->0;
            let b = segments_of(d)[q];
            let g = value_index(hit, h);
            let e = new_edit(seg, seg.len() - 1, o, u);
            &&& d == edited(edited(s, e), hit_edit(hit, v))
            &&& hit.start < e.start
            &&& alone(op, d, q)
            &&& clean(b, f, o)
            &&& says(b, f, v)
            &&& says(b, o, u)
            &&& b.len() == seg.len() + 2
            &&& b[seg.len() as int].text == o.long@
            &&& b[seg.len() as int + 1].text == u
            &&& same_texts(b.take(seg.len() as int), seg.update(g, retold(seg[g], hit.prefix + v)))
        }),
{
    let seg = segments_of(s)[q];
    let n = seg.len() as int;
    let hit = flag_at(seg, f, h)->0;
    let g = value_index(hit, h);
    let e = new_edit(seg, n - 1, o, u);
    lemma_hit_stands(seg, f, h);
    lemma_segment_stands(s, q, g, n - 1);
    lemma_segment_stands(s, q, n - 1, n - 1);
    lemma_edit_new(op, s, q, o, n - 1, u);
    let t = edited(s, e);
    let a = segments_of(t)[q];
    lemma_place_flag(seg, a, o, f, n - 1, u);
    assert(hits_kept(seg, h, a, moved_index(h, n - 1), f));
    lemma_hit_stands(a, f, h);
    assert(a[g] == seg[g]);
    assert(hit_edit(flag_at(a, f, h)->0, v) == hit_edit(hit, v));
    lemma_edit_hit(op, t, q, f, h, v);
    let d = edited(t, hit_edit(hit, v));
    let b = segments_of(d)[q];
    lemma_place_value(a, b, f, o, h, v);
    assert(hits_kept(a, n, b, n, o));
    lemma_only_hit(a, o, n, a.len() as int);
    lemma_says_hit(b, o, n);
    let w = seg.update(g, retold(seg[g], hit.prefix + v));
    let c = b.take(n);
    assert forall|x: int| 0 <= x < c.len() implies (#[trigger] c[x]).text == w[x].text by {
        assert(a[x] == seg[x]);
        if x < g {
            assert(b[x] == a[x]);
        }
    }
    assert(b[n].text == a[n].text);
    assert(b[n + 1].text == a[n + 1].text);
    d
}

/// What is shown of the one pull request a command creates.
proof fn lemma_pr_shown(d: Seq<char>, q: int, title: Seq<char>, body: Seq<char>)
    requires
        alone(Gated::PrCreate, d, q),
        runs(Gated::PrCreate, segments_of(d)[q]),
        sourced_here(segments_of(d)[q]),
        says(segments_of(d)[q], title_flag(), title),
        says(segments_of(d)[q], body_flag(), body),
        heredoc_of(title) is None,
        heredoc_of(body) is None,
    ensures
        pr_match(d) == Some(pr_shown(title, body)),
{
    let b = segments_of(d)[q];
    lemma_one_match(Gated::PrCreate, segments_of(d), q);
    lemma_external_from(b, 0);
    lemma_says_shown(b, title_flag(), title);
    lemma_says_shown(b, body_flag(), body);
}

/// What a gate shows of a pull request with this title and body.
pub open spec fn pr_shown(title: Seq<char>, body: Seq<char>) -> GateMatchV {
    GateMatchV {
        kind: "PR creation"@,
        params: seq![
            GateParamV { key: "title"@, label: "Title"@, value: title, multiline: false },
            GateParamV { key: "body"@, label: "Body"@, value: body, multiline: true },
        ],
        note: None,
    }
}

/// A flag occurs once or not at all.
proof fn lemma_hit_or_none(seg: Seq<TokenV>, f: FlagName) -> (h: int)
    requires
        flag_count(seg, f, seg.len() as int) <= 1,
    ensures
        flag_last(seg, f, seg.len() as int) is Some ==> only_hit(seg, f, h) && flag_last(
            seg,
            f,
            seg.len() as int,
        ) == flag_at(seg, f, h) && hit_index(seg, f, seg.len() as int) == h,
        flag_last(seg, f, seg.len() as int) is None ==> no_hit(seg, f),
{
    let n = seg.len() as int;
    if flag_count(seg, f, n) == 1 {
        let h = lemma_count_one(seg, f, n);
        lemma_only_hit(seg, f, h, n);
        lemma_hit_index(seg, f, h, n);
        h
    } else {
        lemma_count_zero(seg, f, n);
        lemma_no_hit(seg, f, n);
        0
    }
}

/// Both the title and the body had a value.
proof fn lemma_pr_both(c: Seq<char>, q: int, title: Seq<char>, body: Seq<char>)
    requires
        alone(Gated::PrCreate, c, q),
        pr_editable(c, q, title, body),
        flag_last(segments_of(c)[q], title_flag(), segments_of(c)[q].len() as int) is Some,
        flag_last(segments_of(c)[q], body_flag(), segments_of(c)[q].len() as int) is Some,
    ensures
        pr_match(pr_spliced(c, segments_of(c)[q], title, body)) == Some(pr_shown(title, body)),
{
    let t = title_flag();
    let o = body_flag();
    lemma_pr_flags();
    let seg = segments_of(c)[q];
    let h = lemma_hit_or_none(seg, t);
    let k = lemma_hit_or_none(seg, o);
    let x = flag_at(seg, t, h)->0;
    let y = flag_at(seg, o, k)->0;
    let g = value_index(x, h);
    let i = value_index(y, k);
    lemma_values_apart(seg, t, o, h, k);
    lemma_hit_stands(seg, t, h);
    lemma_hit_stands(seg, o, k);
    lemma_two_edits(c, hit_edit(x, title), hit_edit(y, body));
    // The segment that the requirement speaks of.
    let w = with_value(seg, t, title);
    lemma_place_value(seg, w, t, o, h, title);
    assert(hits_kept(seg, k, w, k, o));
    lemma_only_hit(w, o, k, w.len() as int);
    lemma_hit_index(w, o, k, w.len() as int);
    let z = with_value(w, o, body);
    let both = seg.update(g, retold(seg[g], x.prefix + title)).update(
        i,
        retold(seg[i], y.prefix + body),
    );
    assert(same_texts(z, both));
    let d = pr_spliced(c, seg, title, body);
    if g < i {
        let e = lemma_two_values(Gated::PrCreate, c, q, t, o, h, k, title, body);
        assert(d == e);
    } else {
        let e = lemma_two_values(Gated::PrCreate, c, q, o, t, k, h, body, title);
        assert(d == e);
        assert(seg.update(i, retold(seg[i], y.prefix + body)).update(
            g,
            retold(seg[g], x.prefix + title),
        ) =~= both);
    }
    lemma_runs_by_text(Gated::PrCreate, z, segments_of(d)[q]);
    lemma_pr_shown(d, q, title, body);
}

/// The command with both edits made, where they are needed.
pub open spec fn pr_spliced(
    c: Seq<char>,
    seg: Seq<TokenV>,
    title: Seq<char>,
    body: Seq<char>,
) -> Seq<char> {
    spliced(
        c,
        push_opt(
            push_opt(seq![], edit_of(seg, title_flag(), title)),
            edit_of(seg, body_flag(), body),
        ),
    )
}

/// Whether title and body of the `q`th segment can be edited, and to these values: each fits
/// where it goes, the segment still creates a pull request with them, and neither value is
/// read as a here-doc in turn.
pub open spec fn pr_editable(c: Seq<char>, q: int, title: Seq<char>, body: Seq<char>) -> bool {
    let seg = segments_of(c)[q];
    let n = seg.len() as int;
    &&& n > 0
    &&& runs(Gated::PrCreate, seg)
    &&& sourced_here(seg)
    &&& flag_count(seg, title_flag(), n) <= 1
    &&& flag_count(seg, body_flag(), n) <= 1
    &&& !flag_ambiguous(seg, title_flag())
    &&& !flag_ambiguous(seg, body_flag())
    &&& pr_can_take(c, seg, title, body)
}

/// Whether these values can be put for title and body.
pub open spec fn pr_can_take(
    c: Seq<char>,
    seg: Seq<TokenV>,
    title: Seq<char>,
    body: Seq<char>,
) -> bool {
    let t = title_flag();
    let b = body_flag();
    &&& can_take(seg, t, title)
    &&& can_take(seg, b, body)
    &&& runs(Gated::PrCreate, with_value(with_value(seg, t, title), b, body))
    &&& is_new(seg, t, title) || is_new(seg, b, body) ==> open_ended(c, seg) && !takes_next(
        seg.last().text,
        t,
    ) && !takes_next(seg.last().text, b)
    &&& heredoc_of(title) is None
    &&& heredoc_of(body) is None
}

/// One of them had a value, and the other gets one.
proof fn lemma_pr_one_new(c: Seq<char>, q: int, title: Seq<char>, body: Seq<char>)
    requires
        alone(Gated::PrCreate, c, q),
        pr_editable(c, q, title, body),
        ({
            let seg = segments_of(c)[q];
            let n = seg.len() as int;
            ||| flag_last(seg, title_flag(), n) is Some && is_new(seg, body_flag(), body)
            ||| flag_last(seg, body_flag(), n) is Some && is_new(seg, title_flag(), title)
        }),
    ensures
        pr_match(pr_spliced(c, segments_of(c)[q], title, body)) == Some(pr_shown(title, body)),
{
    let t = title_flag();
    let o = body_flag();
    lemma_pr_flags();
    let seg = segments_of(c)[q];
    let n = seg.len() as int;
    let h = lemma_hit_or_none(seg, t);
    let k = lemma_hit_or_none(seg, o);
    let d = pr_spliced(c, seg, title, body);
    let w = with_value(seg, t, title);
    let z = with_value(w, o, body);
    if flag_last(seg, t, n) is Some {
        let x = flag_at(seg, t, h)->0;
        let g = value_index(x, h);
        lemma_hit_stands(seg, t, h);
        lemma_two_edits(c, hit_edit(x, title), new_edit(seg, n - 1, o, body));
        lemma_place_value(seg, w, t, o, h, title);
        lemma_no_hit(w, o, w.len() as int);
        let e = lemma_value_and_flag(Gated::PrCreate, c, q, t, o, h, title, body);
        assert(d == e);
        let b = segments_of(d)[q];
        assert forall|i: int| 0 <= i < z.len() implies (#[trigger] z[i]).text == b[i].text by {
            if i < n {
                assert(b.take(n)[i] == b[i]);
                assert(b.take(n)[i].text == w[i].text);
            }
        }
    } else {
        let y = flag_at(seg, o, k)->0;
        let i = value_index(y, k);
        lemma_hit_stands(seg, o, k);
        lemma_two_edits(c, new_edit(seg, n - 1, t, title), hit_edit(y, body));
        assert(flag_put(seg, w, n - 1, t.long@, title));
        lemma_place_flag(seg, w, t, o, n - 1, title);
        assert(hits_kept(seg, k, w, moved_index(k, n - 1), o));
        lemma_only_hit(w, o, k, w.len() as int);
        lemma_hit_index(w, o, k, w.len() as int);
        let e = lemma_value_and_flag(Gated::PrCreate, c, q, o, t, k, body, title);
        assert(d == e);
        let b = segments_of(d)[q];
        let v = seg.update(i, retold(seg[i], y.prefix + body));
        assert forall|j: int| 0 <= j < z.len() implies (#[trigger] z[j]).text == b[j].text by {
            if j < n {
                assert(b.take(n)[j] == b[j]);
                assert(b.take(n)[j].text == v[j].text);
            }
        }
    }
    lemma_runs_by_text(Gated::PrCreate, z, segments_of(d)[q]);
    lemma_pr_shown(d, q, title, body);
}

/// Neither had a value, and both get one.
proof fn lemma_pr_both_new(c: Seq<char>, q: int, title: Seq<char>, body: Seq<char>)
    requires
        alone(Gated::PrCreate, c, q),
        pr_editable(c, q, title, body),
        is_new(segments_of(c)[q], title_flag(), title),
        is_new(segments_of(c)[q], body_flag(), body),
    ensures
        pr_match(pr_spliced(c, segments_of(c)[q], title, body)) == Some(pr_shown(title, body)),
{
    let op = Gated::PrCreate;
    let t = title_flag();
    let o = body_flag();
    lemma_pr_flags();
    let seg = segments_of(c)[q];
    let n = seg.len() as int;
    let h = lemma_hit_or_none(seg, t);
    let k = lemma_hit_or_none(seg, o);
    let x = new_edit(seg, n - 1, t, title);
    let y = new_edit(seg, n - 1, o, body);
    lemma_two_edits(c, x, y);
    lemma_edit_new(op, c, q, t, n - 1, title);
    let s = edited(c, x);
    let a = segments_of(s)[q];
    lemma_place_flag(seg, a, t, o, n - 1, title);
    assert(a[n - 1] == seg[n - 1]);
    assert(new_edit(a, n - 1, o, body) == y);
    lemma_edit_new(op, s, q, o, n - 1, body);
    let d = edited(s, y);
    let b = segments_of(d)[q];
    lemma_place_flag(a, b, o, t, n - 1, body);
    assert(hits_kept(a, n, b, moved_index(n, n - 1), t));
    lemma_only_hit(a, t, n, a.len() as int);
    lemma_says_hit(b, t, n + 2);
    assert(grows(seg, b)) by {
        assert forall|i: int| 0 <= i < n implies (#[trigger] seg[i]).text == b[i].text by {
            assert(b[i] == a[i] && a[i] == seg[i]);
        }
    }
    more_words_run_the_same(op, seg, b);
    assert(d == pr_spliced(c, seg, title, body));
    lemma_pr_shown(d, q, title, body);
}

/// One of them, at most, is edited; the other has no value and gets none.
proof fn lemma_pr_single(c: Seq<char>, q: int, title: Seq<char>, body: Seq<char>)
    requires
        alone(Gated::PrCreate, c, q),
        pr_editable(c, q, title, body),
        ({
            let seg = segments_of(c)[q];
            let n = seg.len() as int;
            ||| flag_last(seg, title_flag(), n) is None && title.len() == 0
            ||| flag_last(seg, body_flag(), n) is None && body.len() == 0
        }),
    ensures
        pr_match(pr_spliced(c, segments_of(c)[q], title, body)) == Some(pr_shown(title, body)),
{
    let op = Gated::PrCreate;
    lemma_pr_flags();
    let seg = segments_of(c)[q];
    let n = seg.len() as int;
    let d = pr_spliced(c, seg, title, body);
    let bare = flag_last(seg, title_flag(), n) is None && title.len() == 0;
    // The one that may be edited, and the other.
    let (f, o, v, u) = if bare {
        (body_flag(), title_flag(), body, title)
    } else {
        (title_flag(), body_flag(), title, body)
    };
    let h = lemma_hit_or_none(seg, f);
    let k = lemma_hit_or_none(seg, o);
    assert(no_hit(seg, o));
    assert(u =~= seq![]);
    assert(edit_of(seg, o, u) is None);
    let edit = edit_of(seg, f, v);
    lemma_one_edit(c, edit->0);
    assert(d == spliced(c, push_opt(seq![], edit)));
    let w = with_value(with_value(seg, title_flag(), title), body_flag(), body);
    if flag_last(seg, f, n) is Some {
        let hit = flag_at(seg, f, h)->0;
        let g = value_index(hit, h);
        lemma_hit_stands(seg, f, h);
        lemma_edit_hit(op, c, q, f, h, v);
        let b = segments_of(d)[q];
        lemma_place_value(seg, b, f, o, h, v);
        lemma_says_nothing(b, o);
        let put_in = with_value(seg, f, v);
        lemma_place_value(seg, put_in, f, o, h, v);
        lemma_no_hit(put_in, o, put_in.len() as int);
        assert(w == put_in);
        lemma_runs_by_text(op, w, b);
        lemma_pr_shown(d, q, title, body);
    } else if v.len() == 0 {
        assert(v =~= seq![]);
        assert(d == c);
        lemma_says_nothing(seg, f);
        lemma_says_nothing(seg, o);
        lemma_pr_shown(c, q, title, body);
    } else {
        lemma_edit_new(op, c, q, f, n - 1, v);
        let b = segments_of(d)[q];
        lemma_place_flag(seg, b, f, o, n - 1, v);
        lemma_says_nothing(b, o);
        assert(grows(seg, b)) by {
            assert forall|i: int| 0 <= i < n implies (#[trigger] seg[i]).text == b[i].text by {
                assert(b[i] == seg[i]);
            }
        }
        more_words_run_the_same(op, seg, b);
        lemma_pr_shown(d, q, title, body);
    }
}

/// The edited command creates a pull request with the edited title and body.
proof fn lemma_pr_edited(
    c: Seq<char>,
    params: Seq<GateParamV>,
    title: Seq<char>,
    body: Seq<char>,
)
    requires
        pr_match(c) matches Some(m) && m.params.len() > 0,
        edited_value_of(params, "title"@) == Some(title),
        edited_value_of(params, "body"@) == Some(body),
        pr_can_take(c, matching(Gated::PrCreate, segments_of(c))[0], title, body),
    ensures
        pr_command(c, params) matches Some(d) && pr_match(d) == Some(pr_shown(title, body)),
{
    let op = Gated::PrCreate;
    let segs = segments_of(c);
    assert(matching(op, segs).len() == 1);
    let q = lemma_where_matched(op, segs);
    let seg = segs[q];
    let n = seg.len() as int;
    assert(alone(op, c, q));
    lemma_first_running(op, segs, q, 0);
    assert(pr_segment_match(seg).params.len() > 0);
    lemma_external_from(seg, 0);
    assert(sourced_here(seg));
    lemma_bounds(tokens_of(c), 0);
    assert(n > 0);
    assert(pr_editable(c, q, title, body));
    assert(pr_command(c, params) == Some(pr_spliced(c, seg, title, body)));
    let t = flag_last(seg, title_flag(), n);
    let b = flag_last(seg, body_flag(), n);
    if (t is None && title.len() == 0) || (b is None && body.len() == 0) {
        lemma_pr_single(c, q, title, body);
    } else if t is Some && b is Some {
        lemma_pr_both(c, q, title, body);
    } else if t is None && b is None {
        lemma_pr_both_new(c, q, title, body);
    } else {
        lemma_pr_one_new(c, q, title, body);
    }
}

// ---------------------------------------------------------------------------
// The laws
// ---------------------------------------------------------------------------

/// What a gate shows of a commit with this message.
pub open spec fn commit_shown(message: Seq<char>) -> GateMatchV {
    GateMatchV {
        kind: "commit"@,
        params: seq![
            GateParamV {
                key: "message"@,
                label: "Commit message"@,
                value: message,
                multiline: true,
            },
        ],
        note: None,
    }
}

/// The one segment of a command that runs an operation.
pub open spec fn gated_segment(op: Gated, command: Seq<char>) -> Seq<TokenV> {
    matching(op, segments_of(command))[0]
}

/// Whether a message can be put for that of a commit: it fits where it goes, the segment
/// still commits with it, and it is not read as a here-doc in turn.
pub open spec fn commit_can_take(c: Seq<char>, seg: Seq<TokenV>, v: Seq<char>) -> bool {
    let f = message_flag();
    &&& can_take(seg, f, v)
    &&& runs(Gated::Commit, with_value(seg, f, v))
    &&& is_new(seg, f, v) ==> open_ended(c, seg)
    &&& heredoc_of(v) is None
}

/// An edited commit message is what is committed: of the call that is let through, the rule
/// reads the message that the user typed, and nothing else. It holds of every call whose
/// message can be edited and of every message, but where the message would be read as a
/// flag or, in turn, as a here-doc; where the word that holds it decides what the command
/// runs; and where the flag has to go behind the command and that breaks off inside a
/// quotation or ends with a flag that takes a value.
pub proof fn an_edited_message_is_what_is_committed(
    args: JsonV,
    params: Seq<GateParamV>,
    v: Seq<char>,
)
    requires
        GitCommitRule.match_of("Bash"@, args) matches Some(m) && m.params.len() > 0,
        edited_value_of(params, "message"@) == Some(v),
        ({
            let c = command_in(args)->0;
            commit_can_take(c, gated_segment(Gated::Commit, c), v)
        }),
    ensures
        GitCommitRule.match_of("Bash"@, GitCommitRule.applied(args, params)) == Some(
            commit_shown(v),
        ),
{
    lemma_commit_edited(command_in(args)->0, params, v);
}

/// An edited title and an edited body are what is proposed: of the call that is let through,
/// the rule reads the title and the body that the user typed, and nothing else. It holds of
/// every call whose title and body can be edited and of all values, but where a value would
/// be read as a flag or, in turn, as a here-doc; where the word that holds one decides what
/// the command runs; and where a flag has to go behind the command and that breaks off
/// inside a quotation or ends with a flag that takes a value.
pub proof fn an_edited_title_and_body_are_what_is_proposed(
    args: JsonV,
    params: Seq<GateParamV>,
    title: Seq<char>,
    body: Seq<char>,
)
    requires
        GhPrCreateRule.match_of("Bash"@, args) matches Some(m) && m.params.len() > 0,
        edited_value_of(params, "title"@) == Some(title),
        edited_value_of(params, "body"@) == Some(body),
        ({
            let c = command_in(args)->0;
            pr_can_take(c, gated_segment(Gated::PrCreate, c), title, body)
        }),
    ensures
        GhPrCreateRule.match_of("Bash"@, GhPrCreateRule.applied(args, params)) == Some(
            pr_shown(title, body),
        ),
{
    lemma_pr_edited(command_in(args)->0, params, title, body);
}

} // verus!
