//! What texts, queries, templates and lists of tasks read as.
use crate::daemon::briefing::{includes, lemma_includes, lemma_includes_through};
use crate::daemon::github::AccountV;
use crate::daemon::jira::{
    encoded_byte, encoded_bytes, is_plain_byte, search_error, shortened, site_of, texts_among,
    upper_hex,
};
use crate::daemon::{acting_account, active_login, count_in_state, first_in_state, TaskV};
use crate::json::{list_in, member, JsonV};
use crate::prompts::{
    closing_line, header_of, listed, parsed_template, trimmed_parts, unbracketed, with_line,
    without_blank_first, HeaderV,
};
use crate::text::{
    after_run, after_space, before_run, before_space, is_white_space, join, lemma_after_space,
    lemma_before_space, lemma_next_char, next_char, split_from, split_on, trim, trim_start,
    unix_text,
};
use vstd::prelude::*;

verus! {

// ---------------------------------------------------------------------------
// Texts
// ---------------------------------------------------------------------------

/// Trimming takes off the white space at both ends and nothing else.
pub proof fn trimming_takes_off_white_space(s: Seq<char>) -> (r: (int, int))
    ensures
        0 <= r.0 <= r.1 <= s.len(),
        trim(s) == s.subrange(r.0, r.1),
        forall|i: int| 0 <= i < r.0 ==> is_white_space(#[trigger] s[i]),
        forall|i: int| r.1 <= i < s.len() ==> is_white_space(#[trigger] s[i]),
        r.0 < r.1 ==> !is_white_space(s[r.0]) && !is_white_space(s[r.1 - 1]),
{
    lemma_after_space(s, 0);
    let a = after_space(s, 0);
    let t = trim_start(s);
    lemma_before_space(t, t.len() as int);
    let b = before_space(t, t.len() as int);
    assert(trim(s) =~= s.subrange(a, a + b));
    assert forall|i: int| a + b <= i < s.len() implies is_white_space(#[trigger] s[i]) by {
        assert(t[i - a] == s[i]);
    }
    if b > 0 {
        assert(t[b - 1] == s[a + b - 1]);
        assert(a < s.len());
    }
    (a, a + b)
}

proof fn lemma_pieces(s: Seq<char>, c: char, i: int)
    requires
        0 <= i <= s.len(),
    ensures
        split_from(s, c, i).len() > 0,
        join(split_from(s, c, i), seq![c]) == s.subrange(i, s.len() as int),
        forall|k: int|
            0 <= k < split_from(s, c, i).len() ==> !(#[trigger] split_from(s, c, i)[k]).contains(
                c,
            ),
    decreases s.len() - i,
{
    lemma_next_char(s, c, i);
    let j = next_char(s, c, i);
    let all = split_from(s, c, i);
    if j >= s.len() {
        let one = s.subrange(i, s.len() as int);
        assert(!one.contains(c));
        assert(all =~= seq![one]);
        lemma_join_one(one, seq![c]);
    } else {
        lemma_pieces(s, c, j + 1);
        let rest = split_from(s, c, j + 1);
        let one = s.subrange(i, j);
        assert(!one.contains(c));
        lemma_join_more(one, rest, seq![c]);
        assert(s.subrange(i, s.len() as int) =~= one + seq![c] + s.subrange(j + 1, s.len() as int));
        assert forall|k: int| 0 <= k < all.len() implies !(#[trigger] all[k]).contains(c) by {
            if k > 0 {
                assert(all[k] == rest[k - 1]);
            }
        }
    }
}

proof fn lemma_join_one(one: Seq<char>, sep: Seq<char>)
    ensures
        join(seq![one], sep) == one,
{
    assert(seq![one].drop_last() =~= Seq::<Seq<char>>::empty());
}

proof fn lemma_join_more(one: Seq<char>, rest: Seq<Seq<char>>, sep: Seq<char>)
    requires
        rest.len() > 0,
    ensures
        join(seq![one] + rest, sep) == one + sep + join(rest, sep),
    decreases rest.len(),
{
    let all = seq![one] + rest;
    assert(all.drop_last() =~= seq![one] + rest.drop_last());
    assert(all.last() == rest.last());
    if rest.len() == 1 {
        assert(rest =~= seq![rest[0]]);
        lemma_join_one(rest[0], sep);
        assert(all.drop_last() =~= seq![one]);
        lemma_join_one(one, sep);
    } else {
        lemma_join_more(one, rest.drop_last(), sep);
    }
    assert(join(all, sep) =~= one + sep + join(rest, sep));
}

/// A text is its pieces put together again, and no piece holds what it was split on.
pub proof fn pieces_make_the_text_again(s: Seq<char>, c: char)
    ensures
        join(split_on(s, c), seq![c]) == s,
        forall|k: int|
            0 <= k < split_on(s, c).len() ==> !(#[trigger] split_on(s, c)[k]).contains(c),
{
    lemma_pieces(s, c, 0);
    assert(s.subrange(0, s.len() as int) =~= s);
}

proof fn lemma_shift(a: Seq<char>, b: Seq<char>, c: char, i: int)
    requires
        0 <= i <= b.len(),
    ensures
        next_char(a + b, c, a.len() + i) == a.len() + next_char(b, c, i),
        split_from(a + b, c, a.len() + i) == split_from(b, c, i),
    decreases b.len() - i,
{
    lemma_shift_char(a, b, c, i);
    lemma_next_char(b, c, i);
    let j = next_char(b, c, i);
    let s = a + b;
    if j >= b.len() {
        assert(s.subrange(a.len() + i, s.len() as int) =~= b.subrange(i, b.len() as int));
    } else {
        lemma_shift(a, b, c, j + 1);
        assert(s.subrange(a.len() + i, a.len() + j) =~= b.subrange(i, j));
    }
}

proof fn lemma_shift_char(a: Seq<char>, b: Seq<char>, c: char, i: int)
    requires
        0 <= i <= b.len(),
    ensures
        next_char(a + b, c, a.len() + i) == a.len() + next_char(b, c, i),
    decreases b.len() - i,
{
    if i < b.len() && b[i] != c {
        lemma_shift_char(a, b, c, i + 1);
    }
}

/// Pieces that are put together are found again when the text is split.
pub proof fn joined_pieces_are_found_again(pieces: Seq<Seq<char>>, c: char)
    requires
        pieces.len() > 0,
        forall|k: int| 0 <= k < pieces.len() ==> !(#[trigger] pieces[k]).contains(c),
    ensures
        split_on(join(pieces, seq![c]), c) == pieces,
    decreases pieces.len(),
{
    let one = pieces[0];
    let rest = pieces.skip(1);
    assert(!one.contains(c));
    if rest.len() == 0 {
        assert(pieces =~= seq![one]);
        lemma_join_one(one, seq![c]);
        lemma_next_char(one, c, 0);
        assert(one.subrange(0, one.len() as int) =~= one);
        assert(next_char(one, c, 0) == one.len());
    } else {
        assert forall|k: int| 0 <= k < rest.len() implies !(#[trigger] rest[k]).contains(c) by {
            assert(rest[k] == pieces[k + 1]);
        }
        joined_pieces_are_found_again(rest, c);
        assert(pieces =~= seq![one] + rest);
        lemma_join_more(one, rest, seq![c]);
        let head = one + seq![c];
        let tail = join(rest, seq![c]);
        let s = head + tail;
        assert(join(pieces, seq![c]) == s);
        lemma_next_char(s, c, 0);
        assert(s[one.len() as int] == c);
        let j = next_char(s, c, 0);
        assert forall|k: int| 0 <= k < one.len() implies s[k] != c by {
            assert(s[k] == one[k]);
            assert(one.contains(one[k]));
        }
        assert(j == one.len());
        assert(s.subrange(0, j) =~= one);
        lemma_shift(head, tail, c, 0);
    }
}

// ---------------------------------------------------------------------------
// Queries
// ---------------------------------------------------------------------------

/// The number that a hexadecimal digit stands for.
pub open spec fn hex_value(c: char) -> int {
    if '0' <= c && c <= '9' {
        c as int - '0' as int
    } else {
        c as int - 'A' as int + 10
    }
}

/// The bytes that a part of a query stands for: three characters from a percent sign on are
/// one byte, any other character is its own.
pub open spec fn decoded(s: Seq<char>) -> Seq<u8>
    decreases s.len(),
{
    if s.len() == 0 {
        seq![]
    } else if s[0] == '%' {
        if s.len() < 3 {
            seq![]
        } else {
            seq![(hex_value(s[1]) * 16 + hex_value(s[2])) as u8] + decoded(s.skip(3))
        }
    } else {
        seq![s[0] as u8] + decoded(s.skip(1))
    }
}

proof fn lemma_upper_hex(d: nat)
    requires
        d < 16,
    ensures
        hex_value(upper_hex(d)) == d,
{
}

proof fn lemma_decode_byte(b: u8, rest: Seq<char>)
    ensures
        decoded(encoded_byte(b) + rest) == seq![b] + decoded(rest),
{
    let e = encoded_byte(b);
    let s = e + rest;
    if is_plain_byte(b) {
        assert(s.skip(1) =~= rest);
        assert(s[0] == b as char);
        assert((b as char) as u8 == b);
    } else {
        lemma_upper_hex((b / 16) as nat);
        lemma_upper_hex((b % 16) as nat);
        assert(s[0] == '%' && s[1] == e[1] && s[2] == e[2]);
        assert(s.skip(3) =~= rest);
        assert((b / 16) * 16 + b % 16 == b);
    }
}

proof fn lemma_decode(bytes: Seq<u8>, rest: Seq<char>)
    ensures
        decoded(encoded_bytes(bytes) + rest) == bytes + decoded(rest),
    decreases bytes.len(),
{
    if bytes.len() == 0 {
        assert(encoded_bytes(bytes) + rest =~= rest);
        assert(bytes + decoded(rest) =~= decoded(rest));
    } else {
        let d = bytes.drop_last();
        let e = encoded_byte(bytes.last());
        assert(encoded_bytes(bytes) + rest =~= encoded_bytes(d) + (e + rest));
        lemma_decode(d, e + rest);
        lemma_decode_byte(bytes.last(), rest);
        assert(d + (seq![bytes.last()] + decoded(rest)) =~= bytes + decoded(rest));
    }
}

/// What is put in a query reads back as what it was.
pub proof fn a_query_reads_back(bytes: Seq<u8>)
    ensures
        decoded(encoded_bytes(bytes)) == bytes,
{
    lemma_decode(bytes, seq![]);
    assert(encoded_bytes(bytes) + Seq::<char>::empty() =~= encoded_bytes(bytes));
    assert(bytes + decoded(seq![]) =~= bytes);
}

/// Only letters, digits and a few signs stand in a query, so nothing of it is taken for
/// anything else.
pub proof fn a_query_is_plain(bytes: Seq<u8>, i: int)
    requires
        0 <= i < encoded_bytes(bytes).len(),
    ensures
        ({
            let c = encoded_bytes(bytes)[i];
            ||| 'a' <= c && c <= 'z'
            ||| 'A' <= c && c <= 'Z'
            ||| '0' <= c && c <= '9'
            ||| c == '-' || c == '_' || c == '.' || c == '~' || c == '%'
        }),
    decreases bytes.len(),
{
    let d = encoded_bytes(bytes.drop_last());
    let e = encoded_byte(bytes.last());
    assert(encoded_bytes(bytes) == d + e);
    if i < d.len() {
        a_query_is_plain(bytes.drop_last(), i);
    } else {
        assert((d + e)[i] == e[i - d.len()]);
    }
}

/// Slashes at the end of an address do not matter.
pub proof fn slashes_at_the_end_do_not_matter(url: Seq<char>)
    ensures
        site_of(url.push('/')) == site_of(url),
        url.len() > 0 && url.last() != '/' ==> site_of(url) == url,
{
    let more = url.push('/');
    let n = url.len() as int;
    assert(more.subrange(0, n) =~= url);
    lemma_run(url, more, n);
    assert(more[n] == '/');
    assert(before_run(more, '/', n + 1) == before_run(more, '/', n));
    let k = before_run(url, '/', n);
    assert(more.subrange(0, k) =~= url.subrange(0, k));
    assert(url.subrange(0, n) =~= url);
}

proof fn lemma_run(s: Seq<char>, more: Seq<char>, j: int)
    requires
        0 <= j <= s.len() <= more.len(),
        more.subrange(0, s.len() as int) == s,
    ensures
        before_run(s, '/', j) == before_run(more, '/', j),
        0 <= before_run(s, '/', j) <= j,
    decreases j,
{
    if j > 0 {
        assert(more.subrange(0, s.len() as int)[j - 1] == more[j - 1]);
        lemma_run(s, more, j - 1);
    }
}

/// A long text is cut to its first characters, a short one is kept.
pub proof fn a_long_text_is_cut(s: Seq<char>, n: int)
    requires
        0 <= n,
    ensures
        shortened(s, n).len() <= n,
        s.len() <= n ==> shortened(s, n) == s,
        s.len() > n ==> shortened(s, n) == s.take(n),
{
}

proof fn lemma_text_among(items: Seq<JsonV>, k: int, text: Seq<char>)
    requires
        0 <= k < items.len(),
        items[k] == JsonV::Text(text),
    ensures
        texts_among(items).contains(text),
    decreases items.len(),
{
    let d = items.drop_last();
    let before = texts_among(d);
    let all = texts_among(items);
    if k < d.len() {
        assert(d[k] == items[k]);
        lemma_text_among(d, k, text);
        let i = choose|i: int| 0 <= i < before.len() && before[i] == text;
        assert(all[i] == text);
    } else {
        assert(all[all.len() - 1] == text);
    }
}

/// Every reason that Jira gives for a rejected query is told.
pub proof fn every_reason_of_a_rejection_is_told(v: JsonV, k: int, text: Seq<char>)
    requires
        list_in(member(v, "errorMessages"@)) is Some,
        0 <= k < list_in(member(v, "errorMessages"@))->0.len(),
        list_in(member(v, "errorMessages"@))->0[k] == JsonV::Text(text),
    ensures
        search_error(v) is Some,
        includes(search_error(v)->0, text),
{
    let items = list_in(member(v, "errorMessages"@))->0;
    lemma_text_among(items, k, text);
    let found = texts_among(items);
    let i = choose|i: int| 0 <= i < found.len() && found[i] == text;
    crate::upkeep::lemma_joined(found, "; "@, i);
    let all = join(found, "; "@);
    let told = search_error(v)->0;
    let before = "Jira rejected the query: "@;
    assert(told =~= before + all + seq![]);
    lemma_includes(told, before, all, seq![]);
    lemma_includes_through(told, all, text);
}

// ---------------------------------------------------------------------------
// Accounts and tasks
// ---------------------------------------------------------------------------

/// The app acts as the account that is set, and without one as the active one.
pub proof fn who_the_app_acts_as(setting: Seq<char>, accounts: Seq<AccountV>, k: int)
    ensures
        trim(setting).len() > 0 ==> acting_account(Some(setting), accounts) == setting,
        0 <= k < accounts.len() && accounts[k].active && (forall|j: int|
            0 <= j < accounts.len() && j != k ==> !(#[trigger] accounts[j]).active) ==> {
            &&& acting_account(None, accounts) == accounts[k].login
            &&& trim(setting).len() == 0 ==> acting_account(Some(setting), accounts)
                == accounts[k].login
        },
        (forall|j: int| 0 <= j < accounts.len() ==> !(#[trigger] accounts[j]).active)
            ==> acting_account(None, accounts).len() == 0,
{
    lemma_active(accounts, 0);
}

proof fn lemma_active(accounts: Seq<AccountV>, i: int)
    requires
        0 <= i <= accounts.len(),
    ensures
        (exists|j: int|
            i <= j < accounts.len() && (#[trigger] accounts[j]).active && active_login(accounts, i)
                == accounts[j].login) || ((forall|j: int|
            i <= j < accounts.len() ==> !(#[trigger] accounts[j]).active) && active_login(
            accounts,
            i,
        ).len() == 0),
    decreases accounts.len() - i,
{
    if i < accounts.len() && !accounts[i].active {
        lemma_active(accounts, i + 1);
    }
}

/// The tasks in a state are counted one by one.
pub proof fn tasks_are_counted_one_by_one(tasks: Seq<TaskV>, more: TaskV, state: Seq<char>)
    ensures
        count_in_state(seq![], state) == 0,
        more.state == state ==> count_in_state(tasks.push(more), state) == count_in_state(
            tasks,
            state,
        ) + 1,
        more.state != state ==> count_in_state(tasks.push(more), state) == count_in_state(
            tasks,
            state,
        ),
{
    assert(tasks.push(more).drop_last() =~= tasks);
}

/// A task that is looked for by its state is the first in that state, and is found where
/// there is one.
pub proof fn the_first_task_in_a_state_is_found(tasks: Seq<TaskV>, state: Seq<char>, i: int)
    requires
        0 <= i <= tasks.len(),
    ensures
        match first_in_state(tasks, state, i) {
            Some(t) => exists|k: int|
                i <= k < tasks.len() && (#[trigger] tasks[k]) == t && t.state == state && (forall|
                    j: int,
                |
                    i <= j < k ==> (#[trigger] tasks[j]).state != state),
            None => forall|j: int| i <= j < tasks.len() ==> (#[trigger] tasks[j]).state != state,
        },
    decreases tasks.len() - i,
{
    if i < tasks.len() && tasks[i].state != state {
        the_first_task_in_a_state_is_found(tasks, state, i + 1);
    } else if i < tasks.len() {
        assert(tasks[i].state == state);
    }
}

// ---------------------------------------------------------------------------
// Templates
// ---------------------------------------------------------------------------

proof fn lemma_line(key: Seq<char>, value: Seq<char>)
    requires
        !key.contains(':'),
    ensures
        ({
            let line = key + seq![':'] + value;
            let colon = next_char(line, ':', 0);
            &&& colon == key.len()
            &&& line.subrange(0, colon) == key
            &&& line.subrange(colon + 1, line.len() as int) == value
        }),
{
    let line = key + seq![':'] + value;
    lemma_next_char(line, ':', 0);
    assert(line[key.len() as int] == ':');
    assert forall|k: int| 0 <= k < key.len() implies line[k] != ':' by {
        assert(line[k] == key[k]);
        assert(key.contains(key[k]));
    }
    let colon = next_char(line, ':', 0);
    assert(colon == key.len());
    assert(line.subrange(0, colon) =~= key);
    assert(line.subrange(colon + 1, line.len() as int) =~= value);
}

/// A line of the header of a template sets what it names, and only that; a line that names
/// anything else sets nothing.
pub proof fn what_a_header_line_sets(h: HeaderV, key: Seq<char>, value: Seq<char>)
    requires
        !key.contains(':'),
    ensures
        ({
            let after = with_line(h, key + seq![':'] + value);
            &&& trim(key) == "description"@ ==> after.description == Some(trim(value))
                && after.variables == h.variables
            &&& trim(key) == "variables"@ ==> after.description == h.description
                && after.variables == listed(trim(value))
            &&& trim(key) != "description"@ && trim(key) != "variables"@ ==> after == h
        }),
{
    lemma_line(key, value);
    reveal_strlit("description");
    reveal_strlit("variables");
    assert("description"@.len() == 11 && "variables"@.len() == 9);
}

/// Every name between the commas of a list is listed, without blanks around it.
pub proof fn every_name_is_listed(parts: Seq<Seq<char>>, k: int)
    requires
        0 <= k < parts.len(),
        trim(parts[k]).len() > 0,
    ensures
        trimmed_parts(parts).contains(trim(parts[k])),
    decreases parts.len(),
{
    let d = parts.drop_last();
    let before = trimmed_parts(d);
    let all = trimmed_parts(parts);
    if k < d.len() {
        assert(d[k] == parts[k]);
        every_name_is_listed(d, k);
        let i = choose|i: int| 0 <= i < before.len() && before[i] == trim(parts[k]);
        assert(all[i] == trim(parts[k]));
    } else {
        assert(all[all.len() - 1] == trim(parts[k]));
    }
}

/// A list is read without the brackets around it.
pub proof fn a_list_is_read_without_its_brackets(inner: Seq<char>)
    requires
        inner.len() > 0,
        inner[0] != '[',
        inner.last() != ']',
    ensures
        listed(seq!['['] + inner + seq![']']) == trimmed_parts(split_on(inner, ',')),
        listed(inner) == trimmed_parts(split_on(inner, ',')),
{
    let s = seq!['['] + inner + seq![']'];
    assert(after_run(s, '[', 1) == 1);
    assert(after_run(s, '[', 0) == 1);
    let a = s.subrange(1, s.len() as int);
    assert(a =~= inner + seq![']']);
    let n = inner.len() as int;
    assert(a[n - 1] == inner[n - 1]);
    assert(before_run(a, ']', n) == n);
    assert(before_run(a, ']', n + 1) == n);
    assert(a.subrange(0, n) =~= inner);
    assert(unbracketed(s) == inner);
    assert(after_run(inner, '[', 0) == 0);
    assert(inner.subrange(0, n) =~= inner);
    assert(before_run(inner, ']', n) == n);
}

proof fn lemma_closing(lines: Seq<Seq<char>>, i: int, k: int)
    requires
        0 <= i <= k < lines.len(),
        lines[k] == "---"@,
        forall|j: int| i <= j < k ==> (#[trigger] lines[j]) != "---"@,
    ensures
        closing_line(lines, i) == Some(k),
    decreases k - i,
{
    if i < k {
        assert(lines[i] != "---"@);
        lemma_closing(lines, i + 1, k);
    }
}

/// What stands between two lines of three dashes is the header of a template, and what
/// follows them, after an empty line, is its body.
pub proof fn header_and_body_are_told_apart(
    name: Seq<char>,
    raw: Seq<char>,
    header: Seq<Seq<char>>,
    body: Seq<Seq<char>>,
)
    requires
        forall|k: int|
            0 <= k < header.len() ==> !(#[trigger] header[k]).contains('\n') && header[k]
                != "---"@,
        forall|k: int| 0 <= k < body.len() ==> !(#[trigger] body[k]).contains('\n'),
        body.len() > 0,
        body[0].len() > 0,
        unix_text(raw) == join(seq!["---"@] + header + seq!["---"@, seq![]] + body, seq!['\n']),
    ensures
        parsed_template(name, raw).name == name,
        parsed_template(name, raw).description == header_of(header).description,
        parsed_template(name, raw).variables == header_of(header).variables,
        parsed_template(name, raw).body == join(body, seq!['\n']),
{
    let all = seq!["---"@] + header + seq!["---"@, seq![]] + body;
    reveal_strlit("---");
    assert forall|k: int| 0 <= k < all.len() implies !(#[trigger] all[k]).contains('\n') by {
        let n = header.len() as int;
        if k == 0 || k == n + 1 {
            assert(all[k] == "---"@);
        } else if k <= n {
            assert(all[k] == header[k - 1]);
        } else if k == n + 2 {
            assert(all[k].len() == 0);
        } else {
            assert(all[k] == body[k - n - 3]);
        }
    }
    joined_pieces_are_found_again(all, '\n');
    let n = header.len() as int;
    assert forall|j: int| 1 <= j < n + 1 implies (#[trigger] all[j]) != "---"@ by {
        assert(all[j] == header[j - 1]);
    }
    lemma_closing(all, 1, n + 1);
    assert(all.subrange(1, n + 1) =~= header);
    let after = all.subrange(n + 2, all.len() as int);
    assert(after =~= seq![Seq::<char>::empty()] + body);
    assert(after.subrange(1, after.len() as int) =~= body);
    assert(without_blank_first(after) == body);
}

/// A text without a line of three dashes at its start has no header: all of it is the body.
pub proof fn a_text_without_a_header_is_all_body(name: Seq<char>, raw: Seq<char>)
    requires
        split_on(unix_text(raw), '\n')[0] != "---"@,
    ensures
        parsed_template(name, raw).body == unix_text(raw),
        parsed_template(name, raw).description is None,
        parsed_template(name, raw).variables.len() == 0,
{
    pieces_make_the_text_again(unix_text(raw), '\n');
}

} // verus!
