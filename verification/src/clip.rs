//! Cutting a text down to a number of UTF-8 bytes, never inside a character.
use crate::text::{chars_of, part_of};
use vstd::prelude::*;
use vstd::string::*;
use vstd::utf8::{encode_scalar, encode_utf8};

verus! {

/// How many bytes a text takes.
pub open spec fn byte_len(s: Seq<char>) -> nat {
    encode_utf8(s).len()
}

/// Where the longest end of `s` starts that takes at most `max` bytes.
pub open spec fn tail_start(s: Seq<char>, max: nat) -> nat
    decreases s.len(),
{
    if byte_len(s) <= max || s.len() == 0 {
        0
    } else {
        1 + tail_start(s.skip(1), max)
    }
}

/// Where the longest beginning of `s` ends that takes at most `max` bytes.
pub open spec fn head_end(s: Seq<char>, max: nat) -> nat
    decreases s.len(),
{
    if byte_len(s) <= max || s.len() == 0 {
        s.len()
    } else {
        head_end(s.drop_last(), max)
    }
}

pub open spec fn width(c: char) -> nat {
    encode_scalar(c as u32).len()
}

pub fn char_width(c: char) -> (n: usize)
    ensures
        n == width(c),
        1 <= n <= 4,
{
    let v: u32 = c as u32;
    if v <= 0x7F {
        1
    } else if v <= 0x7FF {
        2
    } else if v <= 0xFFFF {
        3
    } else {
        4
    }
}

pub proof fn lemma_first_char(s: Seq<char>)
    requires
        s.len() > 0,
    ensures
        byte_len(s) == width(s[0]) + byte_len(s.skip(1)),
{
    assert(s.drop_first() =~= s.skip(1));
}

pub proof fn lemma_last_char(s: Seq<char>)
    requires
        s.len() > 0,
    ensures
        byte_len(s) == byte_len(s.drop_last()) + width(s.last()),
    decreases s.len(),
{
    lemma_first_char(s);
    if s.len() == 1 {
        assert(s.skip(1).len() == 0);
        assert(s.drop_last().len() == 0);
    } else {
        lemma_last_char(s.skip(1));
        lemma_first_char(s.drop_last());
        assert(s.skip(1).drop_last() =~= s.drop_last().skip(1));
    }
}

/// The longest end of `text` that takes at most `max` bytes.
pub fn last_bytes(text: &str, max: usize) -> (r: String)
    ensures
        r@ == text@.skip(tail_start(text@, max as nat) as int),
        tail_start(text@, max as nat) <= text@.len(),
{
    let s: Vec<char> = chars_of(text);
    let n: usize = s.len();
    let mut left: usize = text.as_bytes().len();
    let mut i: usize = 0;
    assert(s@.skip(0) =~= s@);
    while left > max && i < n
        invariant
            i <= n,
            n == s@.len(),
            s@ == text@,
            left == byte_len(s@.skip(i as int)),
            tail_start(s@, max as nat) == i + tail_start(s@.skip(i as int), max as nat),
        decreases n - i,
    {
        proof {
            lemma_first_char(s@.skip(i as int));
            assert(s@.skip(i as int).skip(1) =~= s@.skip(i + 1));
        }
        left = left - char_width(s[i]);
        i += 1;
    }
    assert(s@.subrange(i as int, n as int) =~= s@.skip(i as int));
    part_of(s.as_slice(), i, n)
}

/// The longest beginning of `text` that takes at most `max` bytes.
pub fn first_bytes(text: &str, max: usize) -> (r: String)
    ensures
        r@ == text@.take(head_end(text@, max as nat) as int),
        head_end(text@, max as nat) <= text@.len(),
{
    let s: Vec<char> = chars_of(text);
    let mut left: usize = text.as_bytes().len();
    let mut n: usize = s.len();
    assert(s@.take(n as int) =~= s@);
    while left > max && n > 0
        invariant
            n <= s@.len(),
            s@ == text@,
            left == byte_len(s@.take(n as int)),
            head_end(s@, max as nat) == head_end(s@.take(n as int), max as nat),
        decreases n,
    {
        proof {
            lemma_last_char(s@.take(n as int));
            assert(s@.take(n as int).drop_last() =~= s@.take(n - 1));
        }
        left = left - char_width(s[n - 1]);
        n -= 1;
    }
    assert(s@.subrange(0, n as int) =~= s@.take(n as int));
    part_of(s.as_slice(), 0, n)
}

/// More characters take more bytes.
pub proof fn lemma_more_bytes(s: Seq<char>, i: int, j: int)
    requires
        0 <= i <= j <= s.len(),
    ensures
        byte_len(s.take(i)) <= byte_len(s.take(j)),
        i < j ==> byte_len(s.take(i)) < byte_len(s.take(j)),
    decreases j - i,
{
    if i < j {
        lemma_more_bytes(s, i, j - 1);
        lemma_last_char(s.take(j));
        assert(s.take(j).drop_last() =~= s.take(j - 1));
    }
}

/// The longest beginning that fits is the one that fits and does not with one character more.
pub proof fn lemma_head_end(s: Seq<char>, max: nat, i: int)
    requires
        0 <= i <= s.len(),
        byte_len(s.take(i)) <= max,
        i < s.len() ==> byte_len(s.take(i + 1)) > max,
    ensures
        head_end(s, max) == i,
{
    a_beginning_fits_and_is_the_longest(s, max);
    let h = head_end(s, max) as int;
    if h < i {
        lemma_more_bytes(s, h + 1, i);
    } else if i < h {
        lemma_more_bytes(s, i + 1, h);
    }
}

/// The character in front of which so many of the first bytes end that `i` characters take.
pub proof fn lemma_at_offset(s: Seq<char>, i: int)
    requires
        0 <= i <= s.len(),
    ensures
        head_end(s, byte_len(s.take(i))) == i,
{
    if i < s.len() {
        lemma_more_bytes(s, i, i + 1);
    }
    lemma_head_end(s, byte_len(s.take(i)), i);
}

/// How many of the first characters lie within the first `max` bytes.
pub fn chars_within(s: &[char], max: usize) -> (i: usize)
    ensures
        i == head_end(s@, max as nat),
        i <= s@.len(),
{
    let mut i: usize = 0;
    let mut left: usize = max;
    assert(s@.take(0) =~= seq![]);
    while i < s.len() && char_width(s[i]) <= left
        invariant
            i <= s@.len(),
            byte_len(s@.take(i as int)) + left == max,
        decreases s@.len() - i,
    {
        proof {
            lemma_last_char(s@.take(i + 1));
            assert(s@.take(i + 1).drop_last() =~= s@.take(i as int));
        }
        left = left - char_width(s[i]);
        i += 1;
    }
    proof {
        if i < s@.len() {
            lemma_last_char(s@.take(i + 1));
            assert(s@.take(i + 1).drop_last() =~= s@.take(i as int));
        }
        lemma_head_end(s@, max as nat, i as int);
    }
    i
}

/// What `last_bytes` keeps takes at most `max` bytes, and one character more would not fit.
pub proof fn an_end_fits_and_is_the_longest(s: Seq<char>, max: nat)
    ensures
        tail_start(s, max) <= s.len(),
        byte_len(s.skip(tail_start(s, max) as int)) <= max,
        tail_start(s, max) > 0 ==> byte_len(s.skip(tail_start(s, max) - 1)) > max,
    decreases s.len(),
{
    assert(s.skip(0) =~= s);
    if byte_len(s) > max && s.len() > 0 {
        let k = tail_start(s.skip(1), max);
        an_end_fits_and_is_the_longest(s.skip(1), max);
        assert(s.skip(1).skip(k as int) =~= s.skip((k + 1) as int));
        if k > 0 {
            assert(s.skip(1).skip(k - 1) =~= s.skip(k as int));
        }
    }
}

/// What `first_bytes` keeps takes at most `max` bytes, and one character more would not
/// fit.
pub proof fn a_beginning_fits_and_is_the_longest(s: Seq<char>, max: nat)
    ensures
        head_end(s, max) <= s.len(),
        byte_len(s.take(head_end(s, max) as int)) <= max,
        head_end(s, max) < s.len() ==> byte_len(s.take((head_end(s, max) + 1) as int)) > max,
    decreases s.len(),
{
    assert(s.take(s.len() as int) =~= s);
    if byte_len(s) > max && s.len() > 0 {
        let t = s.drop_last();
        let k = head_end(t, max);
        a_beginning_fits_and_is_the_longest(t, max);
        assert(t.take(k as int) =~= s.take(k as int));
        if k < t.len() {
            assert(t.take((k + 1) as int) =~= s.take((k + 1) as int));
        } else {
            assert(s.take((k + 1) as int) =~= s);
        }
    }
}

} // verus!
