//! Laws of the rules: what was edited in a gate is what the edited command says, and nothing
//! else of the command changes.
use crate::clip::{byte_len, lemma_at_offset, lemma_more_bytes};
use crate::gate::rules::{
    before_program, edited, first_running, git_value_flag, is_flag, matching, next_separator,
    next_word, program_from, program_of, runs, segments, segments_from, subcommand_from, EditV,
    Gated,
};
use crate::gate::shell::{char_tokens, in_bytes, tokens_of, TokenV};
use crate::gate::splicing::{
    a_flag_behind_a_word_disturbs_no_token, a_value_in_place_disturbs_no_other_token, all_later,
    closed, flag_text, lemma_chars_in_order, put, replaced, safe_text, with_flag, written,
};
use vstd::prelude::*;

verus! {

// ---------------------------------------------------------------------------
// Segments
// ---------------------------------------------------------------------------

proof fn lemma_next_separator(ts: Seq<TokenV>, i: int)
    requires
        0 <= i <= ts.len(),
    ensures
        i <= next_separator(ts, i) <= ts.len(),
        next_separator(ts, i) < ts.len() ==> ts[next_separator(ts, i)].is_separator,
        forall|x: int| i <= x < next_separator(ts, i) ==> !(#[trigger] ts[x]).is_separator,
    decreases ts.len() - i,
{
    if i < ts.len() && !ts[i].is_separator {
        lemma_next_separator(ts, i + 1);
    }
}

/// Where the segments of `ts[i..]` begin and end.
pub open spec fn bounds_from(ts: Seq<TokenV>, i: int) -> Seq<(int, int)>
    decreases ts.len() - i,
{
    let j = next_separator(ts, i);
    let rest = if 0 <= i <= j < ts.len() {
        bounds_from(ts, j + 1)
    } else {
        seq![]
    };
    if i < j {
        seq![(i, j)] + rest
    } else {
        rest
    }
}

/// The segments stand between their bounds.
pub proof fn lemma_bounds(ts: Seq<TokenV>, i: int)
    requires
        0 <= i <= ts.len(),
    ensures
        bounds_from(ts, i).len() == segments_from(ts, i).len(),
        forall|q: int| #![trigger bounds_from(ts, i)[q]]
            0 <= q < bounds_from(ts, i).len() ==> {
                let (x, y) = bounds_from(ts, i)[q];
                &&& i <= x < y <= ts.len()
                &&& segments_from(ts, i)[q] == ts.subrange(x, y)
                &&& forall|z: int| x <= z < y ==> !(#[trigger] ts[z]).is_separator
            },
        forall|q: int, r: int| #![trigger bounds_from(ts, i)[q], bounds_from(ts, i)[r]]
            0 <= q < r < bounds_from(ts, i).len() ==> bounds_from(ts, i)[q].1 < bounds_from(
                ts,
                i,
            )[r].0,
    decreases ts.len() - i,
{
    lemma_next_separator(ts, i);
    let j = next_separator(ts, i);
    if j < ts.len() {
        lemma_bounds(ts, j + 1);
    }
    let rest = if j < ts.len() {
        bounds_from(ts, j + 1)
    } else {
        seq![]
    };
    let segs = if j < ts.len() {
        segments_from(ts, j + 1)
    } else {
        seq![]
    };
    let all = bounds_from(ts, i);
    if i < j {
        assert(all == seq![(i, j)] + rest);
        assert(segments_from(ts, i) == seq![ts.subrange(i, j)] + segs);
        assert forall|q: int| #![trigger all[q]] 0 <= q < all.len() implies {
            let (x, y) = all[q];
            &&& i <= x < y <= ts.len()
            &&& segments_from(ts, i)[q] == ts.subrange(x, y)
            &&& forall|z: int| x <= z < y ==> !(#[trigger] ts[z]).is_separator
        } by {
            if q > 0 {
                assert(all[q] == rest[q - 1]);
            }
        }
        assert forall|q: int, r: int| #![trigger all[q], all[r]]
            0 <= q < r < all.len() implies all[q].1 < all[r].0 by {
            assert(all[r] == rest[r - 1]);
            if q > 0 {
                assert(all[q] == rest[q - 1]);
            }
        }
    }
}

/// Tokens that separate at the same places have their segments at the same places.
proof fn lemma_same_bounds(a: Seq<TokenV>, b: Seq<TokenV>, i: int)
    requires
        0 <= i <= a.len(),
        a.len() == b.len(),
        forall|x: int| 0 <= x < a.len() ==> (#[trigger] a[x]).is_separator == b[x].is_separator,
    ensures
        next_separator(a, i) == next_separator(b, i),
        bounds_from(a, i) == bounds_from(b, i),
    decreases a.len() - i,
{
    lemma_same_next_separator(a, b, i, 0);
    lemma_next_separator(a, i);
    let j = next_separator(a, i);
    if j < a.len() {
        lemma_same_bounds(a, b, j + 1);
    }
}

/// The next separator where what is left separates at the same places.
proof fn lemma_same_next_separator(a: Seq<TokenV>, b: Seq<TokenV>, i: int, d: int)
    requires
        0 <= i <= a.len(),
        0 <= i + d,
        b.len() == a.len() + d,
        forall|x: int|
            i <= x < a.len() ==> (#[trigger] a[x]).is_separator == b[x + d].is_separator,
    ensures
        next_separator(b, i + d) == next_separator(a, i) + d,
    decreases a.len() - i,
{
    if i < a.len() {
        assert(a[i].is_separator == b[i + d].is_separator);
        if !a[i].is_separator {
            lemma_same_next_separator(a, b, i + 1, d);
        }
    }
}

/// A position behind the `k`th token, when two tokens came in there.
pub open spec fn behind_two(x: int, k: int) -> int {
    if x > k {
        x + 2
    } else {
        x
    }
}

/// Bounds, when two tokens came in behind the `k`th.
pub open spec fn bounds_behind_two(b: Seq<(int, int)>, k: int) -> Seq<(int, int)> {
    b.map_values(|p: (int, int)| (behind_two(p.0, k), behind_two(p.1, k)))
}

/// Whether `b` is `a` with two words behind the `k`th token, which is a word too.
spec fn two_more(a: Seq<TokenV>, b: Seq<TokenV>, k: int) -> bool {
    &&& 0 <= k < a.len()
    &&& b.len() == a.len() + 2
    &&& !a[k].is_separator
    &&& !b[k + 1].is_separator
    &&& !b[k + 2].is_separator
    &&& forall|x: int| 0 <= x <= k ==> (#[trigger] a[x]).is_separator == b[x].is_separator
    &&& forall|x: int| k < x < a.len() ==> (#[trigger] a[x]).is_separator == b[x + 2].is_separator
}

proof fn lemma_next_separator_two(a: Seq<TokenV>, b: Seq<TokenV>, k: int, i: int)
    requires
        two_more(a, b, k),
        0 <= i <= a.len(),
    ensures
        next_separator(b, behind_two(i, k)) == behind_two(next_separator(a, i), k),
        next_separator(a, i) != k,
    decreases a.len() - i,
{
    if i > k {
        lemma_same_next_separator(a, b, i, 2);
        lemma_next_separator(a, i);
    } else {
        assert(a[i].is_separator == b[i].is_separator);
        if !a[i].is_separator {
            if i == k {
                lemma_same_next_separator(a, b, k + 1, 2);
                lemma_next_separator(a, k + 1);
                assert(next_separator(b, k) == next_separator(b, k + 1));
                assert(next_separator(b, k + 1) == next_separator(b, k + 2));
            } else {
                lemma_next_separator_two(a, b, k, i + 1);
            }
        }
    }
}

/// Two words behind a word make its segment longer and move the later ones.
proof fn lemma_bounds_two(a: Seq<TokenV>, b: Seq<TokenV>, k: int, i: int)
    requires
        two_more(a, b, k),
        0 <= i <= a.len(),
    ensures
        bounds_from(b, behind_two(i, k)) == bounds_behind_two(bounds_from(a, i), k),
    decreases a.len() - i,
{
    lemma_next_separator_two(a, b, k, i);
    lemma_next_separator(a, i);
    let j = next_separator(a, i);
    let rest_a = if j < a.len() {
        bounds_from(a, j + 1)
    } else {
        seq![]
    };
    let jb = behind_two(j, k);
    assert(j < a.len() <==> jb < b.len());
    if j < a.len() {
        assert(behind_two(j + 1, k) == jb + 1);
        lemma_bounds_two(a, b, k, j + 1);
    }
    let rest_b = if j < a.len() {
        bounds_from(b, jb + 1)
    } else {
        seq![]
    };
    assert(rest_b =~= bounds_behind_two(rest_a, k));
    assert(i < j <==> behind_two(i, k) < jb);
    if i < j {
        assert(seq![(behind_two(i, k), jb)] + rest_b =~= bounds_behind_two(
            seq![(i, j)] + rest_a,
            k,
        ));
    }
}

// ---------------------------------------------------------------------------
// A segment is what its texts are
// ---------------------------------------------------------------------------

/// Whether two token sequences have the same texts.
pub open spec fn same_texts(a: Seq<TokenV>, b: Seq<TokenV>) -> bool {
    &&& a.len() == b.len()
    &&& forall|i: int| 0 <= i < a.len() ==> (#[trigger] a[i]).text == b[i].text
}

pub proof fn lemma_program_by_text(a: Seq<TokenV>, b: Seq<TokenV>, i: int)
    requires
        same_texts(a, b),
        0 <= i,
    ensures
        program_from(a, i) == program_from(b, i),
        program_from(a, i) matches Some(p) ==> i <= p < a.len(),
    decreases a.len() - i,
{
    if i < a.len() {
        assert(a[i].text == b[i].text);
        if before_program(a[i].text) {
            lemma_program_by_text(a, b, i + 1);
        }
    }
}

proof fn lemma_subcommand_by_text(a: Seq<TokenV>, b: Seq<TokenV>, i: int)
    requires
        same_texts(a, b),
        0 <= i,
    ensures
        subcommand_from(a, i) == subcommand_from(b, i),
        subcommand_from(a, i) matches Some(k) ==> i <= k < a.len(),
    decreases a.len() - i,
{
    if i < a.len() {
        assert(a[i].text == b[i].text);
        if is_flag(a[i].text) {
            if git_value_flag(a[i].text) {
                if i + 2 <= a.len() {
                    lemma_subcommand_by_text(a, b, i + 2);
                }
            } else {
                lemma_subcommand_by_text(a, b, i + 1);
            }
        }
    }
}

proof fn lemma_next_word_by_text(a: Seq<TokenV>, b: Seq<TokenV>, i: int)
    requires
        same_texts(a, b),
        0 <= i,
    ensures
        next_word(a, i) == next_word(b, i),
        i <= a.len() ==> i <= next_word(a, i) <= a.len(),
    decreases a.len() - i,
{
    if i < a.len() {
        assert(a[i].text == b[i].text);
        if is_flag(a[i].text) {
            lemma_next_word_by_text(a, b, i + 1);
        }
    }
}

/// What a segment runs is decided by its texts.
pub proof fn lemma_runs_by_text(op: Gated, a: Seq<TokenV>, b: Seq<TokenV>)
    requires
        same_texts(a, b),
    ensures
        runs(op, a) == runs(op, b),
{
    lemma_program_by_text(a, b, 0);
    match program_of(a) {
        Some(p) => {
            assert(a[p].text == b[p].text);
            lemma_subcommand_by_text(a, b, p + 1);
            match subcommand_from(a, p + 1) {
                Some(k) => {
                    assert(a[k].text == b[k].text);
                },
                None => {},
            }
            lemma_next_word_by_text(a, b, p + 1);
            let x = next_word(a, p + 1);
            lemma_next_word_by_text(a, b, x + 1);
            let y = next_word(a, x + 1);
            if x < a.len() {
                assert(a[x].text == b[x].text);
            }
            if y < a.len() {
                assert(a[y].text == b[y].text);
            }
        },
        None => {},
    }
}

// ---------------------------------------------------------------------------
// The one segment that is edited
// ---------------------------------------------------------------------------

/// The segments of a command.
pub open spec fn segments_of(s: Seq<char>) -> Seq<Seq<TokenV>> {
    segments(tokens_of(s))
}

/// Whether no segment but the `q`th runs the operation.
pub open spec fn alone(op: Gated, s: Seq<char>, q: int) -> bool {
    &&& 0 <= q < segments_of(s).len()
    &&& forall|r: int|
        0 <= r < segments_of(s).len() && r != q ==> !runs(op, #[trigger] segments_of(s)[r])
}

proof fn lemma_no_match(op: Gated, segs: Seq<Seq<TokenV>>)
    requires
        forall|r: int| 0 <= r < segs.len() ==> !runs(op, #[trigger] segs[r]),
    ensures
        matching(op, segs) == Seq::<Seq<TokenV>>::empty(),
    decreases segs.len(),
{
    if segs.len() > 0 {
        let d = segs.drop_last();
        assert forall|r: int| 0 <= r < d.len() implies !runs(op, #[trigger] d[r]) by {
            assert(d[r] == segs[r]);
        }
        lemma_no_match(op, d);
        assert(!runs(op, segs[segs.len() - 1]));
    }
}

pub proof fn lemma_one_match(op: Gated, segs: Seq<Seq<TokenV>>, q: int)
    requires
        0 <= q < segs.len(),
        runs(op, segs[q]),
        forall|r: int| 0 <= r < segs.len() && r != q ==> !runs(op, #[trigger] segs[r]),
    ensures
        matching(op, segs) == seq![segs[q]],
    decreases segs.len(),
{
    let d = segs.drop_last();
    assert forall|r: int| 0 <= r < d.len() && r != q implies !runs(op, #[trigger] d[r]) by {
        assert(d[r] == segs[r]);
    }
    if q == segs.len() - 1 {
        lemma_no_match(op, d);
        assert(matching(op, segs) =~= seq![segs[q]]);
    } else {
        assert(d[q] == segs[q]);
        lemma_one_match(op, d, q);
        assert(!runs(op, segs[segs.len() - 1]));
    }
}

/// The one match stands somewhere, and nothing else matches.
pub proof fn lemma_where_matched(op: Gated, segs: Seq<Seq<TokenV>>) -> (q: int)
    requires
        matching(op, segs).len() == 1,
    ensures
        0 <= q < segs.len(),
        matching(op, segs)[0] == segs[q],
        runs(op, segs[q]),
        forall|r: int| 0 <= r < segs.len() && r != q ==> !runs(op, #[trigger] segs[r]),
    decreases segs.len(),
{
    let d = segs.drop_last();
    let last = segs.len() - 1;
    if runs(op, segs.last()) {
        if exists|r: int| 0 <= r < d.len() && runs(op, #[trigger] d[r]) {
            let r = choose|r: int| 0 <= r < d.len() && runs(op, #[trigger] d[r]);
            lemma_some_match(op, d, r);
            assert(false);
        }
        assert forall|r: int| 0 <= r < segs.len() && r != last implies !runs(
            op,
            #[trigger] segs[r],
        ) by {
            assert(d[r] == segs[r]);
        }
        last
    } else {
        let q = lemma_where_matched(op, d);
        assert forall|r: int| 0 <= r < segs.len() && r != q implies !runs(
            op,
            #[trigger] segs[r],
        ) by {
            if r < last {
                assert(d[r] == segs[r]);
            }
        }
        q
    }
}

proof fn lemma_some_match(op: Gated, segs: Seq<Seq<TokenV>>, q: int)
    requires
        0 <= q < segs.len(),
        runs(op, segs[q]),
    ensures
        matching(op, segs).len() > 0,
    decreases segs.len(),
{
    if q < segs.len() - 1 {
        assert(segs.drop_last()[q] == segs[q]);
        lemma_some_match(op, segs.drop_last(), q);
    }
}

pub proof fn lemma_first_running(op: Gated, segs: Seq<Seq<TokenV>>, q: int, i: int)
    requires
        0 <= i <= q < segs.len(),
        runs(op, segs[q]),
        forall|r: int| 0 <= r < segs.len() && r != q ==> !runs(op, #[trigger] segs[r]),
    ensures
        first_running(op, segs, i) == Some(segs[q]),
    decreases q - i,
{
    if i < q {
        assert(!runs(op, segs[i]));
        lemma_first_running(op, segs, q, i + 1);
    }
}

/// Whether `b` is `a` with other text, and another end, at `g`; what stands in front of
/// that stands where it stood.
pub open spec fn text_put(a: Seq<TokenV>, b: Seq<TokenV>, g: int, text: Seq<char>) -> bool {
    &&& 0 <= g < a.len()
    &&& b.len() == a.len()
    &&& b[g].text == text
    &&& forall|i: int| 0 <= i < g ==> #[trigger] b[i] == a[i]
    &&& forall|i: int| g < i < a.len() ==> (#[trigger] b[i]).text == a[i].text
}

/// Where the bytes of a token stand, its characters stand.
proof fn lemma_edited_token(s: Seq<char>, k: int, text: Seq<char>)
    requires
        0 <= k < tokens_of(s).len(),
    ensures
        ({
            let c = char_tokens(s)[k];
            let t = tokens_of(s)[k];
            &&& 0 <= c.start < c.end <= s.len()
            &&& edited(s, EditV { start: t.start, end: t.end, text }) == put(
                s,
                c.start,
                c.end,
                text,
            )
            &&& edited(s, EditV { start: t.end, end: t.end, text }) == put(s, c.end, c.end, text)
            &&& t.end < byte_len(s) ==> c.end < s.len()
        }),
{
    lemma_chars_in_order(s, k, k);
    let c = char_tokens(s)[k];
    lemma_at_offset(s, c.start);
    lemma_at_offset(s, c.end);
    assert(s.take(s.len() as int) =~= s);
}

/// What stands in front of a change keeps its place.
proof fn lemma_same_place(s: Seq<char>, t: Seq<char>, a: int, k: TokenV)
    requires
        0 <= k.start <= k.end <= a,
        a <= s.len(),
        a <= t.len(),
        s.take(a) == t.take(a),
    ensures
        in_bytes(s, k) == in_bytes(t, k),
{
    assert(s.take(k.start) =~= s.take(a).take(k.start));
    assert(t.take(k.start) =~= t.take(a).take(k.start));
    assert(s.take(k.end) =~= s.take(a).take(k.end));
    assert(t.take(k.end) =~= t.take(a).take(k.end));
}

/// A value in the place of a token of the one segment: that segment has the value's text
/// there, and still no other segment runs the operation.
pub proof fn lemma_put_value(op: Gated, s: Seq<char>, q: int, g: int, p: Seq<char>, v: Seq<char>)
    requires
        alone(op, s, q),
        0 <= g < segments_of(s)[q].len(),
        safe_text(p),
    ensures
        ({
            let seg = segments_of(s)[q];
            let t = edited(
                s,
                EditV { start: seg[g].start, end: seg[g].end, text: written(p, v) },
            );
            &&& alone(op, t, q)
            &&& text_put(seg, segments_of(t)[q], g, p + v)
        }),
{
    let ts = tokens_of(s);
    let segs = segments_of(s);
    let seg = segs[q];
    let t = edited(s, EditV { start: seg[g].start, end: seg[g].end, text: written(p, v) });
    lemma_bounds(ts, 0);
    let b = bounds_from(ts, 0);
    let (x, y) = b[q];
    let k = x + g;
    assert(seg[g] == ts[k]);
    let n = written(p, v).len() as int;
    let cs = char_tokens(s);
    lemma_edited_token(s, k, written(p, v));
    assert(t == put(s, cs[k].start, cs[k].end, written(p, v)));
    a_value_in_place_disturbs_no_other_token(s, k, p, v);
    let ds = char_tokens(t);
    let us = tokens_of(t);
    let d = n - (cs[k].end - cs[k].start);
    assert(ds == replaced(cs, k, p + v, n));
    assert(us.len() == ts.len());
    assert(t.take(cs[k].start) =~= s.take(cs[k].start));
    assert forall|i: int| 0 <= i < k implies #[trigger] us[i] == ts[i] by {
        assert(ds[i] == cs[i]);
        lemma_chars_in_order(s, i, k);
        lemma_same_place(s, t, cs[k].start, cs[i]);
    }
    assert forall|i: int| k < i < ts.len() implies (#[trigger] us[i]).text == ts[i].text
        && us[i].is_separator == ts[i].is_separator by {
        assert(ds[i] == all_later(cs.skip(k + 1), d)[i - (k + 1)]);
    }
    assert(ds[k].text == p + v);
    assert(us[k].text == p + v && !us[k].is_separator);
    lemma_same_bounds(ts, us, 0);
    lemma_bounds(us, 0);
    let vs = segments_of(t);
    assert forall|r: int| 0 <= r < vs.len() && r != q implies !runs(op, #[trigger] vs[r]) by {
        let (c, e) = b[r];
        assert(segs[r] == ts.subrange(c, e));
        assert(vs[r] == us.subrange(c, e));
        assert(!runs(op, segs[r]));
        assert(e <= k || c > k) by {
            if r < q {
                assert(b[r].1 < b[q].0);
            } else {
                assert(b[q].1 < b[r].0);
            }
        }
        assert forall|i: int| 0 <= i < segs[r].len() implies (#[trigger] segs[r][i]).text
            == vs[r][i].text by {
            assert(segs[r][i] == ts[c + i]);
            assert(vs[r][i] == us[c + i]);
        }
        lemma_runs_by_text(op, segs[r], vs[r]);
    }
    assert(vs[q] == us.subrange(x, y));
    assert forall|i: int| 0 <= i < g implies #[trigger] vs[q][i] == seg[i] by {
        assert(vs[q][i] == us[x + i]);
        assert(seg[i] == ts[x + i]);
    }
    assert forall|i: int| g < i < seg.len() implies (#[trigger] vs[q][i]).text == seg[i].text by {
        assert(vs[q][i] == us[x + i]);
        assert(seg[i] == ts[x + i]);
    }
}

/// Whether `b` is `a` with a flag and its value behind `g`; what stands up to `g` stands
/// where it stood.
pub open spec fn flag_put(
    a: Seq<TokenV>,
    b: Seq<TokenV>,
    g: int,
    flag: Seq<char>,
    v: Seq<char>,
) -> bool {
    &&& 0 <= g < a.len()
    &&& b.len() == a.len() + 2
    &&& forall|i: int| 0 <= i <= g ==> #[trigger] b[i] == a[i]
    &&& b[g + 1].text == flag
    &&& b[g + 2].text == v
    &&& forall|i: int| g < i < a.len() ==> b[i + 2].text == (#[trigger] a[i]).text
}

/// A flag and its value behind a token of the one segment: that segment has them there, and
/// still no other segment runs the operation.
pub proof fn lemma_put_flag(op: Gated, s: Seq<char>, q: int, g: int, flag: Seq<char>, v: Seq<char>)
    requires
        alone(op, s, q),
        0 <= g < segments_of(s)[q].len(),
        safe_text(flag),
        flag.len() > 0,
        segments_of(s)[q][g].end < byte_len(s) || closed(s),
    ensures
        ({
            let seg = segments_of(s)[q];
            let t = edited(
                s,
                EditV { start: seg[g].end, end: seg[g].end, text: flag_text(flag, v) },
            );
            &&& alone(op, t, q)
            &&& flag_put(seg, segments_of(t)[q], g, flag, v)
            &&& seg[g].end < byte_len(t)
        }),
{
    let ts = tokens_of(s);
    let segs = segments_of(s);
    let seg = segs[q];
    let t = edited(s, EditV { start: seg[g].end, end: seg[g].end, text: flag_text(flag, v) });
    lemma_bounds(ts, 0);
    let b = bounds_from(ts, 0);
    let (x, y) = b[q];
    let k = x + g;
    assert(seg[g] == ts[k]);
    let n = flag_text(flag, v).len() as int;
    let cs = char_tokens(s);
    lemma_edited_token(s, k, flag_text(flag, v));
    assert(t == put(s, cs[k].end, cs[k].end, flag_text(flag, v)));
    a_flag_behind_a_word_disturbs_no_token(s, k, flag, v);
    let ds = char_tokens(t);
    let us = tokens_of(t);
    assert(ds == with_flag(cs, k, flag, v));
    assert(us.len() == ts.len() + 2);
    assert(t.take(cs[k].end) =~= s.take(cs[k].end));
    lemma_more_bytes(t, cs[k].end, t.len() as int);
    assert(t.take(t.len() as int) =~= t);
    assert forall|i: int| 0 <= i <= k implies #[trigger] us[i] == ts[i] by {
        assert(ds[i] == cs[i]);
        lemma_chars_in_order(s, i, k);
        lemma_same_place(s, t, cs[k].end, cs[i]);
    }
    assert forall|i: int| k < i < ts.len() implies us[i + 2].text == (#[trigger] ts[i]).text
        && us[i + 2].is_separator == ts[i].is_separator by {
        assert(ds[i + 2] == all_later(cs.skip(k + 1), n)[i - (k + 1)]);
    }
    assert(ds[k + 1].text == flag && ds[k + 2].text == v);
    assert(us[k + 1].text == flag && !us[k + 1].is_separator);
    assert(us[k + 2].text == v && !us[k + 2].is_separator);
    assert(two_more(ts, us, k));
    lemma_bounds_two(ts, us, k, 0);
    lemma_bounds(us, 0);
    let vs = segments_of(t);
    let c2 = bounds_from(us, 0);
    assert(c2 == bounds_behind_two(b, k));
    assert forall|r: int| 0 <= r < vs.len() && r != q implies !runs(op, #[trigger] vs[r]) by {
        let (c, e) = b[r];
        assert(c2[r] == (behind_two(c, k), behind_two(e, k)));
        assert(segs[r] == ts.subrange(c, e));
        assert(!runs(op, segs[r]));
        assert(e <= k || c > k) by {
            if r < q {
                assert(b[r].1 < b[q].0);
            } else {
                assert(b[q].1 < b[r].0);
            }
        }
        assert forall|i: int| 0 <= i < segs[r].len() implies (#[trigger] segs[r][i]).text
            == vs[r][i].text by {
            assert(segs[r][i] == ts[c + i]);
            assert(vs[r][i] == us[behind_two(c, k) + i]);
            if c > k {
                assert(us[(c + i) + 2].text == ts[c + i].text);
            }
        }
        lemma_runs_by_text(op, segs[r], vs[r]);
    }
    assert(c2[q] == (x, y + 2));
    assert(vs[q] == us.subrange(x, y + 2));
    assert forall|i: int| 0 <= i <= g implies #[trigger] vs[q][i] == seg[i] by {
        assert(vs[q][i] == us[x + i]);
        assert(seg[i] == ts[x + i]);
    }
    assert forall|i: int| g < i < seg.len() implies vs[q][i + 2].text == (
    #[trigger] seg[i]).text by {
        assert(vs[q][i + 2] == us[(x + i) + 2]);
        assert(seg[i] == ts[x + i]);
    }
    assert(vs[q][g + 1] == us[k + 1]);
    assert(vs[q][g + 2] == us[k + 2]);
}

// ---------------------------------------------------------------------------
// Segments that grow
// ---------------------------------------------------------------------------

/// Whether `b` begins with the texts of `a`.
pub open spec fn grows(a: Seq<TokenV>, b: Seq<TokenV>) -> bool {
    &&& a.len() <= b.len()
    &&& forall|i: int| 0 <= i < a.len() ==> (#[trigger] a[i]).text == b[i].text
}

proof fn lemma_program_grows(a: Seq<TokenV>, b: Seq<TokenV>, i: int)
    requires
        grows(a, b),
        0 <= i,
        program_from(a, i) is Some,
    ensures
        program_from(b, i) == program_from(a, i),
        i <= program_from(a, i)->0 < a.len(),
    decreases a.len() - i,
{
    if i < a.len() {
        assert(a[i].text == b[i].text);
        if before_program(a[i].text) {
            lemma_program_grows(a, b, i + 1);
        }
    }
}

proof fn lemma_subcommand_grows(a: Seq<TokenV>, b: Seq<TokenV>, i: int)
    requires
        grows(a, b),
        0 <= i,
        subcommand_from(a, i) is Some,
    ensures
        subcommand_from(b, i) == subcommand_from(a, i),
        i <= subcommand_from(a, i)->0 < a.len(),
    decreases a.len() - i,
{
    if i < a.len() {
        assert(a[i].text == b[i].text);
        if is_flag(a[i].text) {
            if git_value_flag(a[i].text) {
                lemma_subcommand_grows(a, b, i + 2);
            } else {
                lemma_subcommand_grows(a, b, i + 1);
            }
        }
    }
}

proof fn lemma_next_word_grows(a: Seq<TokenV>, b: Seq<TokenV>, i: int)
    requires
        grows(a, b),
        0 <= i,
        next_word(a, i) < a.len(),
    ensures
        next_word(b, i) == next_word(a, i),
        i <= next_word(a, i),
    decreases a.len() - i,
{
    if i < a.len() {
        assert(a[i].text == b[i].text);
        if is_flag(a[i].text) {
            lemma_next_word_grows(a, b, i + 1);
        }
    }
}

/// A segment with more words behind it runs what it ran.
pub proof fn more_words_run_the_same(op: Gated, a: Seq<TokenV>, b: Seq<TokenV>)
    requires
        grows(a, b),
        runs(op, a),
    ensures
        runs(op, b),
{
    lemma_program_grows(a, b, 0);
    let p = program_of(a)->0;
    assert(a[p].text == b[p].text);
    match op {
        Gated::PrCreate => {
            lemma_next_word_grows(a, b, p + 1);
            let x = next_word(a, p + 1);
            lemma_next_word_grows(a, b, x + 1);
            let y = next_word(a, x + 1);
            assert(a[x].text == b[x].text);
            assert(a[y].text == b[y].text);
        },
        _ => {
            lemma_subcommand_grows(a, b, p + 1);
            let k = subcommand_from(a, p + 1)->0;
            assert(a[k].text == b[k].text);
        },
    }
}

} // verus!
