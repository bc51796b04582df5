//! Text primitives shared by the parsers.
//!
//! Text is modelled as a `Seq<char>`. The executable functions work on slices of
//! characters; `chars_of` and `string_of` move between those and strings.
use vstd::prelude::*;
use vstd::slice::*;
use vstd::string::*;

verus! {

/// `String::push` appends one character at the end of the string.
pub assume_specification[ String::push ](s: &mut String, c: char)
    ensures
        final(s)@ == old(s)@.push(c),
;

/// `char::is_alphanumeric`, as a function of the character: the Unicode tables
/// behind it are not written out here.
pub uninterp spec fn unicode_alphanumeric(c: char) -> bool;

/// `char::is_alphanumeric` depends on the character alone. For an ASCII character
/// it holds exactly of letters and digits.
pub assume_specification[ char::is_alphanumeric ](c: char) -> (b: bool)
    ensures
        b == unicode_alphanumeric(c),
        (c as u32) < 128 ==> b == is_ascii_alnum(c),
;

/// What `str::to_lowercase` makes of a text.
pub uninterp spec fn lowercased(s: Seq<char>) -> Seq<char>;

/// `str::to_lowercase`: the result depends on the text alone. Of a text in ASCII it lowers
/// the letters from A to Z and nothing else.
#[verifier::external_body]
pub(crate) fn lower_case(s: &str) -> (r: String)
    ensures
        r@ == lowercased(s@),
        is_ascii(s@) ==> r@ == lowered(s@),
{
    s.to_lowercase()
}

pub open spec fn is_ascii(s: Seq<char>) -> bool {
    forall|i: int| 0 <= i < s.len() ==> (#[trigger] s[i]) as u32 <= 127
}

// ---------------------------------------------------------------------------
// Characters
// ---------------------------------------------------------------------------

/// The characters with the Unicode `White_Space` property.
pub open spec fn is_white_space(c: char) -> bool {
    let n = c as u32;
    ||| 0x09 <= n <= 0x0d
    ||| n == 0x20
    ||| n == 0x85
    ||| n == 0xa0
    ||| n == 0x1680
    ||| 0x2000 <= n <= 0x200a
    ||| n == 0x2028
    ||| n == 0x2029
    ||| n == 0x202f
    ||| n == 0x205f
    ||| n == 0x3000
}

pub fn white_space(c: char) -> (b: bool)
    ensures
        b == is_white_space(c),
{
    let n: u32 = c as u32;
    (0x09 <= n && n <= 0x0d) || n == 0x20 || n == 0x85 || n == 0xa0 || n == 0x1680 || (0x2000 <= n
        && n <= 0x200a) || n == 0x2028 || n == 0x2029 || n == 0x202f || n == 0x205f || n == 0x3000
}

pub open spec fn is_ascii_digit(c: char) -> bool {
    '0' <= c && c <= '9'
}

pub open spec fn is_ascii_alnum(c: char) -> bool {
    ||| '0' <= c && c <= '9'
    ||| 'a' <= c && c <= 'z'
    ||| 'A' <= c && c <= 'Z'
}

pub fn ascii_alnum(c: char) -> (b: bool)
    ensures
        b == is_ascii_alnum(c),
{
    ('0' <= c && c <= '9') || ('a' <= c && c <= 'z') || ('A' <= c && c <= 'Z')
}

/// The lower-case form of an ASCII capital; every other character is itself.
pub open spec fn ascii_lower(c: char) -> char {
    if 'A' <= c && c <= 'Z' {
        ((c as u32) + 32) as char
    } else {
        c
    }
}

pub fn lower_char(c: char) -> (r: char)
    ensures
        r == ascii_lower(c),
{
    if 'A' <= c && c <= 'Z' {
        let n: u8 = c as u8;
        (n + 32) as char
    } else {
        c
    }
}

/// `s` with every ASCII capital in lower case.
pub open spec fn lowered(s: Seq<char>) -> Seq<char> {
    s.map_values(|c: char| ascii_lower(c))
}

pub fn lower_text(s: &[char]) -> (r: Vec<char>)
    ensures
        r@ == lowered(s@),
{
    let mut r: Vec<char> = Vec::new();
    let mut i: usize = 0;
    while i < s.len()
        invariant
            i <= s.len(),
            r@ == lowered(s@.take(i as int)),
        decreases s.len() - i,
    {
        r.push(lower_char(s[i]));
        i += 1;
        assert(r@ =~= lowered(s@.take(i as int)));
    }
    assert(s@.take(i as int) =~= s@);
    r
}

// ---------------------------------------------------------------------------
// Strings and character slices
// ---------------------------------------------------------------------------

pub fn chars_of(s: &str) -> (v: Vec<char>)
    ensures
        v@ == s@,
{
    let mut v: Vec<char> = Vec::new();
    for c in it: s.chars()
        invariant
            v@.len() == it.index(),
            it.seq() == s@,
            forall|i: int| 0 <= i < v@.len() ==> v@[i] == it.seq()[i],
    {
        v.push(c);
    }
    assert(v@ =~= s@);
    v
}

pub fn string_of(v: &[char]) -> (s: String)
    ensures
        s@ == v@,
{
    let mut s: String = String::new();
    let mut i: usize = 0;
    while i < v.len()
        invariant
            i <= v.len(),
            s@ == v@.take(i as int),
        decreases v.len() - i,
    {
        s.push(v[i]);
        i += 1;
        assert(s@ =~= v@.take(i as int));
    }
    assert(v@.take(i as int) =~= v@);
    s
}

/// `v[from..to]` as a string.
pub fn part_of(v: &[char], from: usize, to: usize) -> (s: String)
    requires
        from <= to <= v@.len(),
    ensures
        s@ == v@.subrange(from as int, to as int),
{
    string_of(slice_subrange(v, from, to))
}

pub fn text_of(s: &str) -> (r: String)
    ensures
        r@ == s@,
{
    s.to_owned()
}

/// The characters of each string.
pub open spec fn views(v: Seq<String>) -> Seq<Seq<char>> {
    v.map_values(|s: String| s@)
}

/// The characters of an optional string.
pub open spec fn opt_view(s: Option<String>) -> Option<Seq<char>> {
    match s {
        Some(s) => Some(s@),
        None => None,
    }
}

pub fn opt_text(s: &Option<String>) -> (r: Option<String>)
    ensures
        opt_view(r) == opt_view(*s),
{
    match s {
        Some(t) => Some(text_of(t.as_str())),
        None => None,
    }
}

pub fn opt_str(s: Option<&str>) -> (r: Option<String>)
    ensures
        opt_view(r) == (match s {
            Some(t) => Some(t@),
            None => None,
        }),
{
    match s {
        Some(t) => Some(text_of(t)),
        None => None,
    }
}

/// Whether `w` is one of the texts in `v`.
pub fn has_text(v: &Vec<String>, w: &str) -> (b: bool)
    ensures
        b == views(v@).contains(w@),
{
    let mut i: usize = 0;
    while i < v.len()
        invariant
            i <= v.len(),
            forall|k: int| 0 <= k < i ==> views(v@)[k] != w@,
        decreases v.len() - i,
    {
        if same_text(v[i].as_str(), w) {
            assert(views(v@)[i as int] == w@);
            return true;
        }
        i += 1;
    }
    false
}

pub fn same_chars(a: &[char], b: &[char]) -> (r: bool)
    ensures
        r == (a@ == b@),
{
    if a.len() != b.len() {
        return false;
    }
    let mut i: usize = 0;
    while i < a.len()
        invariant
            i <= a.len(),
            a.len() == b.len(),
            forall|k: int| 0 <= k < i ==> a@[k] == b@[k],
        decreases a.len() - i,
    {
        if a[i] != b[i] {
            return false;
        }
        i += 1;
    }
    assert(a@ =~= b@);
    true
}

/// Whether two texts hold the same characters.
pub fn same_text(a: &str, b: &str) -> (r: bool)
    ensures
        r == (a@ == b@),
{
    same_chars(chars_of(a).as_slice(), chars_of(b).as_slice())
}

pub open spec fn has_prefix(s: Seq<char>, p: Seq<char>) -> bool {
    p.len() <= s.len() && s.subrange(0, p.len() as int) == p
}

pub open spec fn has_suffix(s: Seq<char>, p: Seq<char>) -> bool {
    p.len() <= s.len() && s.subrange(s.len() - p.len(), s.len() as int) == p
}

/// Whether `p` stands in `s` at position `i`.
pub open spec fn occurs_at(s: Seq<char>, p: Seq<char>, i: int) -> bool {
    0 <= i && i + p.len() <= s.len() && s.subrange(i, i + p.len()) == p
}

pub fn is_at(s: &[char], p: &[char], i: usize) -> (b: bool)
    requires
        i <= s@.len(),
    ensures
        b == occurs_at(s@, p@, i as int),
{
    if p.len() > s.len() - i {
        return false;
    }
    same_chars(slice_subrange(s, i, i + p.len()), p)
}

pub fn starts_with(s: &[char], p: &[char]) -> (b: bool)
    ensures
        b == has_prefix(s@, p@),
{
    is_at(s, p, 0)
}

pub fn ends_with(s: &[char], p: &[char]) -> (b: bool)
    ensures
        b == has_suffix(s@, p@),
{
    if p.len() > s.len() {
        return false;
    }
    same_chars(slice_subrange(s, s.len() - p.len(), s.len()), p)
}

pub fn str_starts_with(s: &str, p: &str) -> (b: bool)
    ensures
        b == has_prefix(s@, p@),
{
    let s: Vec<char> = chars_of(s);
    let p: Vec<char> = chars_of(p);
    starts_with(s.as_slice(), p.as_slice())
}

// ---------------------------------------------------------------------------
// Searching
// ---------------------------------------------------------------------------

/// The first position from `i` on that holds `c`; the length of `s` if none does.
pub open spec fn next_char(s: Seq<char>, c: char, i: int) -> int
    decreases s.len() - i,
{
    if i >= s.len() {
        s.len() as int
    } else if s[i] == c {
        i
    } else {
        next_char(s, c, i + 1)
    }
}

pub proof fn lemma_next_char(s: Seq<char>, c: char, i: int)
    requires
        0 <= i <= s.len(),
    ensures
        i <= next_char(s, c, i) <= s.len(),
        next_char(s, c, i) < s.len() ==> s[next_char(s, c, i)] == c,
        forall|k: int| i <= k < next_char(s, c, i) ==> s[k] != c,
    decreases s.len() - i,
{
    if i < s.len() && s[i] != c {
        lemma_next_char(s, c, i + 1);
    }
}

pub fn find_char(s: &[char], c: char, from: usize) -> (r: usize)
    requires
        from <= s@.len(),
    ensures
        r == next_char(s@, c, from as int),
        from <= r <= s@.len(),
        r < s@.len() ==> s@[r as int] == c,
{
    let mut i: usize = from;
    while i < s.len() && s[i] != c
        invariant
            from <= i <= s@.len(),
            next_char(s@, c, i as int) == next_char(s@, c, from as int),
        decreases s.len() - i,
    {
        i += 1;
    }
    i
}

/// The first position from `i` on where `p` stands in `s`.
pub open spec fn next_match(s: Seq<char>, p: Seq<char>, i: int) -> Option<int>
    decreases s.len() + 1 - i,
{
    if i < 0 || i + p.len() > s.len() {
        None
    } else if occurs_at(s, p, i) {
        Some(i)
    } else {
        next_match(s, p, i + 1)
    }
}

pub proof fn lemma_next_match(s: Seq<char>, p: Seq<char>, i: int)
    requires
        0 <= i,
    ensures
        next_match(s, p, i) matches Some(k) ==> i <= k && k + p.len() <= s.len() && occurs_at(
            s,
            p,
            k,
        ),
        next_match(s, p, i) matches Some(k) ==> forall|j: int| i <= j < k ==> !occurs_at(s, p, j),
        next_match(s, p, i) is None ==> forall|j: int| i <= j ==> !occurs_at(s, p, j),
    decreases s.len() + 1 - i,
{
    if i + p.len() <= s.len() && !occurs_at(s, p, i) {
        lemma_next_match(s, p, i + 1);
    }
}

pub fn find_text(s: &[char], p: &[char], from: usize) -> (r: Option<usize>)
    requires
        from <= s@.len(),
    ensures
        match r {
            Some(k) => next_match(s@, p@, from as int) == Some(k as int) && from <= k && k + p@.len()
                <= s@.len(),
            None => next_match(s@, p@, from as int) is None,
        },
{
    let mut i: usize = from;
    while p.len() <= s.len() - i
        invariant
            from <= i <= s@.len(),
            next_match(s@, p@, i as int) == next_match(s@, p@, from as int),
        decreases s@.len() - i,
    {
        if is_at(s, p, i) {
            return Some(i);
        }
        if i == s.len() {
            assert(next_match(s@, p@, i + 1) is None);
            return None;
        }
        i += 1;
    }
    None
}

/// Whether `p` stands anywhere in `s`.
pub open spec fn contains_text(s: Seq<char>, p: Seq<char>) -> bool {
    next_match(s, p, 0) is Some
}

/// The last position, at or before `i`, where `p` stands in `s`.
pub open spec fn prev_match(s: Seq<char>, p: Seq<char>, i: int) -> Option<int>
    decreases i + 1,
{
    if i < 0 {
        None
    } else if occurs_at(s, p, i) {
        Some(i)
    } else {
        prev_match(s, p, i - 1)
    }
}

/// The last position where `p` stands in `s`.
pub open spec fn last_match(s: Seq<char>, p: Seq<char>) -> Option<int> {
    prev_match(s, p, s.len() as int)
}

pub fn find_last_text(s: &[char], p: &[char]) -> (r: Option<usize>)
    ensures
        match r {
            Some(k) => last_match(s@, p@) == Some(k as int) && k + p@.len() <= s@.len(),
            None => last_match(s@, p@) is None,
        },
{
    let mut i: usize = s.len();
    loop
        invariant
            i <= s@.len(),
            prev_match(s@, p@, i as int) == last_match(s@, p@),
        decreases i,
    {
        if is_at(s, p, i) {
            return Some(i);
        }
        if i == 0 {
            assert(prev_match(s@, p@, -1) is None);
            return None;
        }
        i -= 1;
    }
}

// ---------------------------------------------------------------------------
// Trimming
// ---------------------------------------------------------------------------

/// Where the run of `c` that begins at `i` ends.
pub open spec fn after_run(s: Seq<char>, c: char, i: int) -> int
    decreases s.len() - i,
{
    if 0 <= i < s.len() && s[i] == c {
        after_run(s, c, i + 1)
    } else {
        i
    }
}

/// Where the run of `c` that ends at `j` begins.
pub open spec fn before_run(s: Seq<char>, c: char, j: int) -> int
    decreases j,
{
    if 0 < j <= s.len() && s[j - 1] == c {
        before_run(s, c, j - 1)
    } else {
        j
    }
}

/// The first position from `i` on that is not white space.
pub open spec fn after_space(s: Seq<char>, i: int) -> int
    decreases s.len() - i,
{
    if 0 <= i < s.len() && is_white_space(s[i]) {
        after_space(s, i + 1)
    } else {
        i
    }
}

/// The end of `s[..j]` without its trailing white space.
pub open spec fn before_space(s: Seq<char>, j: int) -> int
    decreases j,
{
    if 0 < j <= s.len() && is_white_space(s[j - 1]) {
        before_space(s, j - 1)
    } else {
        j
    }
}

/// `s` without leading white space.
pub open spec fn trim_start(s: Seq<char>) -> Seq<char> {
    s.subrange(after_space(s, 0), s.len() as int)
}

/// `s` without trailing white space.
pub open spec fn trim_end(s: Seq<char>) -> Seq<char> {
    s.subrange(0, before_space(s, s.len() as int))
}

/// `s` without leading and trailing white space.
pub open spec fn trim(s: Seq<char>) -> Seq<char> {
    trim_end(trim_start(s))
}

pub proof fn lemma_after_space(s: Seq<char>, i: int)
    requires
        0 <= i <= s.len(),
    ensures
        i <= after_space(s, i) <= s.len(),
        after_space(s, i) < s.len() ==> !is_white_space(s[after_space(s, i)]),
        forall|k: int| i <= k < after_space(s, i) ==> is_white_space(s[k]),
    decreases s.len() - i,
{
    if i < s.len() && is_white_space(s[i]) {
        lemma_after_space(s, i + 1);
    }
}

pub proof fn lemma_before_space(s: Seq<char>, j: int)
    requires
        0 <= j <= s.len(),
    ensures
        0 <= before_space(s, j) <= j,
        0 < before_space(s, j) ==> !is_white_space(s[before_space(s, j) - 1]),
        forall|k: int| before_space(s, j) <= k < j ==> is_white_space(s[k]),
    decreases j,
{
    if 0 < j && is_white_space(s[j - 1]) {
        lemma_before_space(s, j - 1);
    }
}

pub fn skip_space(s: &[char], from: usize) -> (r: usize)
    requires
        from <= s@.len(),
    ensures
        r == after_space(s@, from as int),
        from <= r <= s@.len(),
{
    let mut i: usize = from;
    while i < s.len() && white_space(s[i])
        invariant
            from <= i <= s@.len(),
            after_space(s@, i as int) == after_space(s@, from as int),
        decreases s.len() - i,
    {
        i += 1;
    }
    i
}

pub fn trimmed_start<'a>(s: &'a [char]) -> (r: &'a [char])
    ensures
        r@ == trim_start(s@),
{
    let i: usize = skip_space(s, 0);
    slice_subrange(s, i, s.len())
}

pub fn trimmed_end<'a>(s: &'a [char]) -> (r: &'a [char])
    ensures
        r@ == trim_end(s@),
{
    let mut j: usize = s.len();
    while j > 0 && white_space(s[j - 1])
        invariant
            j <= s@.len(),
            before_space(s@, j as int) == before_space(s@, s@.len() as int),
        decreases j,
    {
        j -= 1;
    }
    slice_subrange(s, 0, j)
}

pub fn trimmed<'a>(s: &'a [char]) -> (r: &'a [char])
    ensures
        r@ == trim(s@),
{
    trimmed_end(trimmed_start(s))
}

pub fn trim_text(s: &str) -> (r: String)
    ensures
        r@ == trim(s@),
{
    let v: Vec<char> = chars_of(s);
    string_of(trimmed(v.as_slice()))
}

/// Whether `s` holds nothing but white space.
pub open spec fn is_blank(s: Seq<char>) -> bool {
    trim(s).len() == 0
}

pub fn blank(s: &str) -> (b: bool)
    ensures
        b == is_blank(s@),
{
    let v: Vec<char> = chars_of(s);
    trimmed(v.as_slice()).len() == 0
}

/// Trimming the end again changes nothing.
pub proof fn trim_end_is_idempotent(s: Seq<char>)
    ensures
        trim_end(trim_end(s)) == trim_end(s),
{
    lemma_before_space(s, s.len() as int);
    let u = trim_end(s);
    if u.len() > 0 {
        assert(u[u.len() - 1] == s[before_space(s, s.len() as int) - 1]);
        assert(before_space(u, u.len() as int) == u.len());
    }
    assert(trim_end(u) =~= u);
}

/// Trimming again changes nothing.
pub proof fn trim_is_idempotent(s: Seq<char>)
    ensures
        trim(trim(s)) == trim(s),
{
    let t = trim_start(s);
    lemma_after_space(s, 0);
    lemma_before_space(t, t.len() as int);
    let u = trim_end(t);
    if u.len() > 0 {
        assert(u[0] == t[0]);
        assert(!is_white_space(u[0]));
        assert(after_space(u, 0) == 0);
        assert(trim_start(u) =~= u);
        assert(u[u.len() - 1] == t[before_space(t, t.len() as int) - 1]);
        assert(before_space(u, u.len() as int) == u.len());
    } else {
        assert(after_space(u, 0) == 0);
        assert(trim_start(u) =~= u);
    }
    assert(trim_end(u) =~= u);
}

// ---------------------------------------------------------------------------
// Splitting, joining, replacing
// ---------------------------------------------------------------------------

/// The pieces of `s[i..]` between occurrences of `c`.
pub open spec fn split_from(s: Seq<char>, c: char, i: int) -> Seq<Seq<char>>
    decreases s.len() - i,
{
    let j = next_char(s, c, i);
    if i < 0 || j < i || j >= s.len() {
        seq![s.subrange(i, s.len() as int)]
    } else {
        seq![s.subrange(i, j)] + split_from(s, c, j + 1)
    }
}

/// The pieces of `s` between occurrences of `c`.
pub open spec fn split_on(s: Seq<char>, c: char) -> Seq<Seq<char>> {
    split_from(s, c, 0)
}

pub open spec fn char_views(v: Seq<Vec<char>>) -> Seq<Seq<char>> {
    v.map_values(|s: Vec<char>| s@)
}

pub fn split_text(s: &[char], c: char) -> (r: Vec<Vec<char>>)
    ensures
        char_views(r@) == split_on(s@, c),
        r@.len() > 0,
{
    let mut r: Vec<Vec<char>> = Vec::new();
    let mut i: usize = 0;
    loop
        invariant
            i <= s@.len(),
            char_views(r@) + split_from(s@, c, i as int) == split_on(s@, c),
        decreases s.len() - i,
    {
        let j: usize = find_char(s, c, i);
        let ghost before = char_views(r@);
        let piece: Vec<char> = slice_to_vec(slice_subrange(s, i, j));
        r.push(piece);
        assert(char_views(r@) =~= before.push(s@.subrange(i as int, j as int)));
        if j == s.len() {
            assert(before + split_from(s@, c, i as int) =~= char_views(r@));
            return r;
        }
        assert(before + split_from(s@, c, i as int) =~= char_views(r@) + split_from(
            s@,
            c,
            j + 1,
        ));
        i = j + 1;
    }
}

/// `s` without a trailing carriage return.
pub open spec fn strip_cr(s: Seq<char>) -> Seq<char> {
    if s.len() > 0 && s[s.len() - 1] == '\r' {
        s.subrange(0, s.len() - 1)
    } else {
        s
    }
}

/// The lines of `s[i..]`: a line ends at a line feed, which does not belong to it,
/// nor does a carriage return right before that line feed.
pub open spec fn lines_from(s: Seq<char>, i: int) -> Seq<Seq<char>>
    decreases s.len() - i,
{
    if i < 0 || i >= s.len() {
        seq![]
    } else {
        let j = next_char(s, '\n', i);
        if j < i || j >= s.len() {
            seq![s.subrange(i, s.len() as int)]
        } else {
            seq![strip_cr(s.subrange(i, j))] + lines_from(s, j + 1)
        }
    }
}

/// The lines of `s`.
pub open spec fn lines(s: Seq<char>) -> Seq<Seq<char>> {
    lines_from(s, 0)
}

pub fn lines_of(s: &[char]) -> (r: Vec<Vec<char>>)
    ensures
        char_views(r@) == lines(s@),
{
    let mut r: Vec<Vec<char>> = Vec::new();
    let mut i: usize = 0;
    assert(char_views(r@) + lines_from(s@, 0) =~= lines(s@));
    while i < s.len()
        invariant
            i <= s@.len(),
            char_views(r@) + lines_from(s@, i as int) == lines(s@),
        decreases s.len() - i,
    {
        let j: usize = find_char(s, '\n', i);
        let ghost before = char_views(r@);
        if j == s.len() {
            let piece: Vec<char> = slice_to_vec(slice_subrange(s, i, j));
            r.push(piece);
            assert(char_views(r@) =~= before.push(s@.subrange(i as int, j as int)));
            assert(before + lines_from(s@, i as int) =~= char_views(r@));
            return r;
        }
        let end: usize = if j > i && s[j - 1] == '\r' {
            j - 1
        } else {
            j
        };
        let piece: Vec<char> = slice_to_vec(slice_subrange(s, i, end));
        assert(piece@ =~= strip_cr(s@.subrange(i as int, j as int)));
        r.push(piece);
        assert(char_views(r@) =~= before.push(strip_cr(s@.subrange(i as int, j as int))));
        assert(before + lines_from(s@, i as int) =~= char_views(r@) + lines_from(s@, j + 1));
        i = j + 1;
    }
    assert(char_views(r@) + lines_from(s@, i as int) =~= char_views(r@));
    r
}

/// `parts` one after the other, with `sep` between two of them.
pub open spec fn join(parts: Seq<Seq<char>>, sep: Seq<char>) -> Seq<char>
    decreases parts.len(),
{
    if parts.len() == 0 {
        seq![]
    } else if parts.len() == 1 {
        parts[0]
    } else {
        join(parts.drop_last(), sep) + sep + parts.last()
    }
}

pub fn join_texts(parts: &Vec<String>, sep: &str) -> (r: String)
    ensures
        r@ == join(views(parts@), sep@),
{
    let mut r: String = String::new();
    let mut i: usize = 0;
    while i < parts.len()
        invariant
            i <= parts.len(),
            r@ == join(views(parts@.take(i as int)), sep@),
        decreases parts.len() - i,
    {
        if i > 0 {
            r.append(sep);
        }
        r.append(parts[i].as_str());
        let ghost done = views(parts@.take(i as int));
        let ghost next = views(parts@.take(i + 1));
        i += 1;
        assert(next.drop_last() =~= done);
        assert(next.last() == parts@[i - 1]@);
        if i == 1 {
            assert(r@ =~= next[0]);
        }
    }
    assert(parts@.take(i as int) =~= parts@);
    r
}

pub fn join_lines(parts: &Vec<Vec<char>>) -> (r: Vec<char>)
    ensures
        r@ == join(char_views(parts@), seq!['\n']),
{
    let mut r: Vec<char> = Vec::new();
    let mut i: usize = 0;
    while i < parts.len()
        invariant
            i <= parts.len(),
            r@ == join(char_views(parts@.take(i as int)), seq!['\n']),
        decreases parts.len() - i,
    {
        let ghost start = r@;
        if i > 0 {
            r.push('\n');
        }
        push_all(&mut r, parts[i].as_slice());
        let ghost done = char_views(parts@.take(i as int));
        let ghost next = char_views(parts@.take(i + 1));
        i += 1;
        assert(next.drop_last() =~= done);
        assert(next.last() == parts@[i - 1]@);
        if i == 1 {
            assert(r@ =~= next[0]);
        } else {
            assert(r@ =~= start + seq!['\n'] + next.last());
        }
    }
    assert(parts@.take(i as int) =~= parts@);
    r
}

pub fn push_all(v: &mut Vec<char>, s: &[char])
    ensures
        final(v)@ == old(v)@ + s@,
{
    let mut i: usize = 0;
    while i < s.len()
        invariant
            i <= s@.len(),
            v@ == old(v)@ + s@.take(i as int),
        decreases s.len() - i,
    {
        v.push(s[i]);
        i += 1;
        assert(v@ =~= old(v)@ + s@.take(i as int));
    }
    assert(s@.take(i as int) =~= s@);
}

/// `s[i..]` with every occurrence of `p`, taken from the left, replaced by `r`.
pub open spec fn replace_from(s: Seq<char>, p: Seq<char>, r: Seq<char>, i: int) -> Seq<char>
    decreases s.len() - i,
{
    if i < 0 || i >= s.len() {
        seq![]
    } else if p.len() > 0 && occurs_at(s, p, i) {
        r + replace_from(s, p, r, i + p.len())
    } else {
        seq![s[i]] + replace_from(s, p, r, i + 1)
    }
}

/// `s` with every occurrence of the non-empty text `p` replaced by `r`.
pub open spec fn replaced(s: Seq<char>, p: Seq<char>, r: Seq<char>) -> Seq<char> {
    replace_from(s, p, r, 0)
}

pub fn replace_text(s: &[char], p: &[char], r: &[char]) -> (out: Vec<char>)
    requires
        p@.len() > 0,
    ensures
        out@ == replaced(s@, p@, r@),
{
    let mut out: Vec<char> = Vec::new();
    let mut i: usize = 0;
    assert(out@ + replace_from(s@, p@, r@, 0) =~= replaced(s@, p@, r@));
    while i < s.len()
        invariant
            i <= s@.len(),
            p@.len() > 0,
            out@ + replace_from(s@, p@, r@, i as int) == replaced(s@, p@, r@),
        decreases s.len() - i,
    {
        let ghost before = out@;
        let ghost rest = replace_from(s@, p@, r@, i as int);
        if is_at(s, p, i) {
            push_all(&mut out, r);
            assert(before + rest =~= out@ + replace_from(s@, p@, r@, i + p@.len()));
            i += p.len();
        } else {
            out.push(s[i]);
            assert(before + rest =~= out@ + replace_from(s@, p@, r@, i + 1));
            i += 1;
        }
    }
    assert(out@ + replace_from(s@, p@, r@, i as int) =~= out@);
    out
}

/// `s` with each `\r\n` as `\n`.
pub open spec fn unix_text(s: Seq<char>) -> Seq<char> {
    replaced(s, seq!['\r', '\n'], seq!['\n'])
}

/// `s` with each `\n` as `\r\n`.
pub open spec fn windows_text(s: Seq<char>) -> Seq<char> {
    replaced(s, seq!['\n'], seq!['\r', '\n'])
}

pub fn to_unix(s: &[char]) -> (r: Vec<char>)
    ensures
        r@ == unix_text(s@),
{
    let crlf: Vec<char> = vec!['\r', '\n'];
    let lf: Vec<char> = vec!['\n'];
    assert(crlf@ =~= seq!['\r', '\n']);
    assert(lf@ =~= seq!['\n']);
    replace_text(s, crlf.as_slice(), lf.as_slice())
}

proof fn lemma_replace_shift(a: Seq<char>, b: Seq<char>, p: Seq<char>, r: Seq<char>, j: int)
    requires
        0 <= j,
    ensures
        replace_from(a + b, p, r, a.len() + j) == replace_from(b, p, r, j),
    decreases b.len() - j,
{
    if j < b.len() {
        let s = a + b;
        if j + p.len() <= b.len() {
            assert(s.subrange(a.len() + j, a.len() + j + p.len()) =~= b.subrange(j, j + p.len()));
        }
        assert(occurs_at(s, p, a.len() + j) == occurs_at(b, p, j));
        if p.len() > 0 && occurs_at(b, p, j) {
            lemma_replace_shift(a, b, p, r, j + p.len());
        } else {
            lemma_replace_shift(a, b, p, r, j + 1);
        }
    }
}

proof fn lemma_no_cr(s: Seq<char>, i: int)
    requires
        0 <= i <= s.len(),
        !s.contains('\r'),
    ensures
        replace_from(s, seq!['\r', '\n'], seq!['\n'], i) == s.skip(i),
    decreases s.len() - i,
{
    let crlf = seq!['\r', '\n'];
    if i < s.len() {
        lemma_no_cr(s, i + 1);
        if occurs_at(s, crlf, i) {
            assert(s.subrange(i, i + 2)[0] == s[i]);
            assert(crlf[0] == '\r');
            assert(s.contains(s[i]));
        }
        assert(seq![s[i]] + s.skip(i + 1) =~= s.skip(i));
    } else {
        assert(s.skip(i) =~= seq![]);
    }
}

proof fn lemma_windows_reads_back(s: Seq<char>, i: int)
    requires
        0 <= i <= s.len(),
        !s.contains('\r'),
    ensures
        unix_text(replace_from(s, seq!['\n'], seq!['\r', '\n'], i)) == s.skip(i),
    decreases s.len() - i,
{
    let lf = seq!['\n'];
    let crlf = seq!['\r', '\n'];
    let w = replace_from(s, lf, crlf, i);
    if i < s.len() {
        lemma_windows_reads_back(s, i + 1);
        let rest = replace_from(s, lf, crlf, i + 1);
        assert(s.contains(s[i]));
        if s[i] == '\n' {
            assert(s.subrange(i, i + 1) =~= lf);
            assert(w == crlf + rest);
            assert(w.subrange(0, 2) =~= crlf);
            lemma_replace_shift(crlf, rest, crlf, lf, 0);
            assert(unix_text(w) =~= lf + s.skip(i + 1));
            assert(lf + s.skip(i + 1) =~= s.skip(i));
        } else {
            if occurs_at(s, lf, i) {
                assert(s.subrange(i, i + 1)[0] == s[i]);
                assert(lf[0] == '\n');
            }
            let one = seq![s[i]];
            assert(w == one + rest);
            assert(w[0] == s[i]);
            if occurs_at(w, crlf, 0) {
                assert(w.subrange(0, 2)[0] == w[0]);
                assert(crlf[0] == '\r');
            }
            lemma_replace_shift(one, rest, crlf, lf, 0);
            assert(unix_text(w) =~= one + s.skip(i + 1));
            assert(one + s.skip(i + 1) =~= s.skip(i));
        }
    } else {
        assert(s.skip(i) =~= seq![]);
        assert(unix_text(w) =~= seq![]);
    }
}

/// A text without carriage returns, written with Windows line endings, reads back as it
/// was, and is left alone otherwise.
pub proof fn windows_text_reads_back(s: Seq<char>)
    requires
        !s.contains('\r'),
    ensures
        unix_text(windows_text(s)) == s,
        unix_text(s) == s,
{
    lemma_windows_reads_back(s, 0);
    lemma_no_cr(s, 0);
    assert(s.skip(0) =~= s);
}

/// `s` without all the copies of `p` at its end.
pub open spec fn without_suffixes(s: Seq<char>, p: Seq<char>) -> Seq<char>
    decreases s.len(),
{
    if p.len() > 0 && has_suffix(s, p) {
        without_suffixes(s.subrange(0, s.len() - p.len()), p)
    } else {
        s
    }
}

pub fn strip_suffixes<'a>(s: &'a [char], p: &[char]) -> (r: &'a [char])
    requires
        p@.len() > 0,
    ensures
        r@ == without_suffixes(s@, p@),
{
    let mut r: &'a [char] = s;
    while ends_with(r, p)
        invariant
            p@.len() > 0,
            without_suffixes(s@, p@) == without_suffixes(r@, p@),
        decreases r@.len(),
    {
        r = slice_subrange(r, 0, r.len() - p.len());
    }
    r
}

/// The last place before `j` that holds `c`.
pub open spec fn prev_char(s: Seq<char>, c: char, j: int) -> Option<int>
    decreases j,
{
    if j <= 0 || j > s.len() {
        None
    } else if s[j - 1] == c {
        Some(j - 1)
    } else {
        prev_char(s, c, j - 1)
    }
}

pub fn find_last_char(s: &[char], c: char) -> (r: Option<usize>)
    ensures
        match r {
            Some(i) => prev_char(s@, c, s@.len() as int) == Some(i as int) && i < s@.len(),
            None => prev_char(s@, c, s@.len() as int) is None,
        },
{
    let mut j: usize = s.len();
    while j > 0
        invariant
            j <= s@.len(),
            prev_char(s@, c, s@.len() as int) == prev_char(s@, c, j as int),
        decreases j,
    {
        if s[j - 1] == c {
            return Some(j - 1);
        }
        j -= 1;
    }
    None
}

/// Where the word that begins at `i` ends.
pub open spec fn word_end(s: Seq<char>, i: int) -> int
    decreases s.len() - i,
{
    if i < 0 || i >= s.len() || is_white_space(s[i]) {
        i
    } else {
        word_end(s, i + 1)
    }
}

/// The first word of `s`; empty if it holds none.
pub open spec fn first_word(s: Seq<char>) -> Seq<char> {
    let i = after_space(s, 0);
    s.subrange(i, word_end(s, i))
}

pub fn leading_word(s: &[char]) -> (r: String)
    ensures
        r@ == first_word(s@),
{
    let i: usize = skip_space(s, 0);
    let mut j: usize = i;
    while j < s.len() && !white_space(s[j])
        invariant
            i <= j <= s@.len(),
            word_end(s@, i as int) == word_end(s@, j as int),
        decreases s@.len() - j,
    {
        j += 1;
    }
    part_of(s, i, j)
}

// ---------------------------------------------------------------------------
// Order
// ---------------------------------------------------------------------------

/// Whether `a` stands before `b` in the order of code points, read from place `i` on.
pub open spec fn before_from(a: Seq<char>, b: Seq<char>, i: int) -> bool
    decreases a.len() - i,
{
    if i < 0 || i >= b.len() {
        false
    } else if i >= a.len() {
        true
    } else {
        a[i] < b[i] || (a[i] == b[i] && before_from(a, b, i + 1))
    }
}

/// Whether `a` stands before `b` in the order of code points, which is that of their
/// UTF-8 bytes.
pub open spec fn before(a: Seq<char>, b: Seq<char>) -> bool {
    before_from(a, b, 0)
}

pub fn text_before(a: &str, b: &str) -> (r: bool)
    ensures
        r == before(a@, b@),
{
    let x: Vec<char> = chars_of(a);
    let y: Vec<char> = chars_of(b);
    let mut i: usize = 0;
    while i < x.len() && i < y.len()
        invariant
            i <= x@.len(),
            i <= y@.len(),
            x@ == a@,
            y@ == b@,
            before(a@, b@) == before_from(a@, b@, i as int),
        decreases x@.len() - i,
    {
        if x[i] != y[i] {
            return x[i] < y[i];
        }
        i += 1;
    }
    i < y.len()
}

proof fn lemma_before_total(a: Seq<char>, b: Seq<char>, i: int)
    requires
        0 <= i,
    ensures
        !(before_from(a, b, i) && before_from(b, a, i)),
    decreases a.len() - i,
{
    if i < a.len() && i < b.len() {
        lemma_before_total(a, b, i + 1);
    }
}

proof fn lemma_before_transitive(a: Seq<char>, b: Seq<char>, c: Seq<char>, i: int)
    requires
        0 <= i,
        !before_from(b, a, i),
        !before_from(c, b, i),
    ensures
        !before_from(c, a, i),
    decreases a.len() - i,
{
    if i < a.len() && i < b.len() && i < c.len() && a[i] == b[i] && b[i] == c[i] {
        lemma_before_transitive(a, b, c, i + 1);
    }
}

/// Texts are ordered totally.
pub proof fn lemma_before(a: Seq<char>, b: Seq<char>, c: Seq<char>)
    ensures
        !(before(a, b) && before(b, a)),
        !before(b, a) && !before(c, b) ==> !before(c, a),
{
    lemma_before_total(a, b, 0);
    if !before(b, a) && !before(c, b) {
        lemma_before_transitive(a, b, c, 0);
    }
}

// ---------------------------------------------------------------------------
// Numbers
// ---------------------------------------------------------------------------

pub open spec fn digit(d: nat) -> char {
    if d == 0 {
        '0'
    } else if d == 1 {
        '1'
    } else if d == 2 {
        '2'
    } else if d == 3 {
        '3'
    } else if d == 4 {
        '4'
    } else if d == 5 {
        '5'
    } else if d == 6 {
        '6'
    } else if d == 7 {
        '7'
    } else if d == 8 {
        '8'
    } else {
        '9'
    }
}

pub fn digit_char(d: u64) -> (c: char)
    requires
        d < 10,
    ensures
        c == digit(d as nat),
{
    match d {
        0 => '0',
        1 => '1',
        2 => '2',
        3 => '3',
        4 => '4',
        5 => '5',
        6 => '6',
        7 => '7',
        8 => '8',
        _ => '9',
    }
}

/// `n` in decimal digits, without leading zeros.
pub open spec fn decimal(n: nat) -> Seq<char>
    decreases n,
{
    if n < 10 {
        seq![digit(n)]
    } else {
        decimal(n / 10).push(digit(n % 10))
    }
}

pub fn decimal_text(n: u64) -> (s: String)
    ensures
        s@ == decimal(n as nat),
{
    long_decimal_text(n as u128)
}

pub fn long_decimal_text(n: u128) -> (s: String)
    ensures
        s@ == decimal(n as nat),
    decreases n,
{
    if n < 10 {
        let mut s: String = String::new();
        s.push(digit_char(n as u64));
        assert(s@ =~= decimal(n as nat));
        s
    } else {
        let mut s: String = long_decimal_text(n / 10);
        s.push(digit_char((n % 10) as u64));
        s
    }
}

/// `n` in decimal digits, with a sign where it is negative.
pub open spec fn signed_decimal(n: int) -> Seq<char> {
    if n < 0 {
        "-"@ + decimal((-n) as nat)
    } else {
        decimal(n as nat)
    }
}

pub fn signed_text(n: i128) -> (s: String)
    ensures
        s@ == signed_decimal(n as int),
{
    if n < 0 {
        let m: u128 = ((-1 - n) as u128) + 1;
        text_of("-").concat(long_decimal_text(m).as_str())
    } else {
        long_decimal_text(n as u128)
    }
}

/// The number that a run of decimal digits denotes.
pub open spec fn digits_value(s: Seq<char>) -> nat
    decreases s.len(),
{
    if s.len() == 0 {
        0
    } else {
        digits_value(s.drop_last()) * 10 + ((s.last() as u32 - '0' as u32) as nat)
    }
}

pub open spec fn all_digits(s: Seq<char>) -> bool {
    forall|i: int| 0 <= i < s.len() ==> is_ascii_digit(#[trigger] s[i])
}

/// `s` without an optional leading plus sign.
pub open spec fn unsigned_part(s: Seq<char>) -> Seq<char> {
    if s.len() > 0 && s[0] == '+' {
        s.subrange(1, s.len() as int)
    } else {
        s
    }
}

/// What `s` denotes as an unsigned number no greater than `max`: decimal digits,
/// at least one, after an optional plus sign.
pub open spec fn parsed_number(s: Seq<char>, max: nat) -> Option<nat> {
    let d = unsigned_part(s);
    if d.len() > 0 && all_digits(d) && digits_value(d) <= max {
        Some(digits_value(d))
    } else {
        None
    }
}

proof fn lemma_digits_value_grows(s: Seq<char>, i: int)
    requires
        0 <= i <= s.len(),
    ensures
        digits_value(s.take(i)) <= digits_value(s),
    decreases s.len() - i,
{
    if i < s.len() {
        lemma_digits_value_grows(s, i + 1);
        assert(s.take(i + 1).drop_last() =~= s.take(i));
    } else {
        assert(s.take(i) =~= s);
    }
}

pub fn parse_number(s: &[char], max: u64) -> (r: Option<u64>)
    ensures
        match r {
            Some(n) => parsed_number(s@, max as nat) == Some(n as nat),
            None => parsed_number(s@, max as nat) is None,
        },
{
    let d: &[char] = if s.len() > 0 && s[0] == '+' {
        slice_subrange(s, 1, s.len())
    } else {
        s
    };
    if d.len() == 0 {
        return None;
    }
    let mut i: usize = 0;
    let mut n: u64 = 0;
    while i < d.len()
        invariant
            i <= d@.len(),
            n == digits_value(d@.take(i as int)),
            n <= max,
            d@ == unsigned_part(s@),
            forall|k: int| 0 <= k < i ==> is_ascii_digit(#[trigger] d@[k]),
        decreases d.len() - i,
    {
        let c: char = d[i];
        if !('0' <= c && c <= '9') {
            assert(!is_ascii_digit(d@[i as int]));
            assert(!all_digits(d@));
            return None;
        }
        let v: u64 = (c as u32 - '0' as u32) as u64;
        assert(d@.take(i + 1).drop_last() =~= d@.take(i as int));
        assert(digits_value(d@.take(i + 1)) == n * 10 + v);
        proof {
            lemma_digits_value_grows(d@, i + 1);
        }
        if v > max || n > (max - v) / 10 {
            assert(digits_value(d@) > max);
            return None;
        }
        n = n * 10 + v;
        i += 1;
    }
    assert(d@.take(i as int) =~= d@);
    Some(n)
}

} // verus!
