//! Which repository, accounts and tools are meant by what git, gh and the machine say.
use crate::clip::{byte_len, lemma_more_bytes};
use crate::daemon::github::{
    accounts_in, filled_parts, last_filled_line, remote_path, slug_of, with_status_line, AccountV,
};
use crate::daemon::queue::first_token;
use crate::gate::wrapping::lemma_not_blank;
use crate::launcher::{newest, rider_of, InstalledApp, RiderSearch};
use crate::reading::{joined_pieces_are_found_again, pieces_make_the_text_again};
use crate::text::{
    after_space, before, first_word, has_prefix, has_suffix, is_white_space, join, lemma_before,
    lemma_next_match, lines, next_match, occurs_at, prev_char, split_on, trim, without_suffixes,
    word_end,
};
use vstd::prelude::*;

verus! {

// ---------------------------------------------------------------------------
// The repository
// ---------------------------------------------------------------------------

proof fn lemma_prev_char(s: Seq<char>, c: char, j: int)
    requires
        0 <= j <= s.len(),
    ensures
        match prev_char(s, c, j) {
            Some(k) => 0 <= k < j && s[k] == c && (forall|x: int|
                k < x < j ==> #[trigger] s[x] != c),
            None => forall|x: int| 0 <= x < j ==> #[trigger] s[x] != c,
        },
    decreases j,
{
    if j > 0 && s[j - 1] != c {
        lemma_prev_char(s, c, j - 1);
    }
}

proof fn lemma_filled(parts: Seq<Seq<char>>, owner: Seq<char>, name: Seq<char>)
    requires
        owner.len() > 0,
        name.len() > 0,
    ensures
        filled_parts(parts.push(owner).push(name)) == filled_parts(parts).push(owner).push(name),
{
    let one = parts.push(owner);
    let two = one.push(name);
    assert(one.drop_last() =~= parts);
    assert(two.drop_last() =~= one);
    assert(filled_parts(one) == filled_parts(parts).push(owner));
}

/// The last two parts of a path, whatever stands in front of them.
proof fn lemma_last_two(front: Option<Seq<char>>, owner: Seq<char>, name: Seq<char>)
    requires
        owner.len() > 0,
        name.len() > 0,
        !owner.contains('/'),
        !name.contains('/'),
    ensures
        ({
            let path = match front {
                Some(f) => f + seq!['/'] + owner + seq!['/'] + name,
                None => owner + seq!['/'] + name,
            };
            let parts = filled_parts(split_on(path, '/'));
            &&& parts.len() >= 2
            &&& parts[parts.len() - 2] == owner
            &&& parts[parts.len() - 1] == name
        }),
{
    let sep = seq!['/'];
    let before = match front {
        Some(f) => split_on(f, '/'),
        None => seq![],
    };
    if front is Some {
        pieces_make_the_text_again(front->0, '/');
    }
    let one = before.push(owner);
    let two = one.push(name);
    assert(one.drop_last() =~= before);
    assert(two.drop_last() =~= one);
    assert forall|k: int| 0 <= k < two.len() implies !(#[trigger] two[k]).contains('/') by {
        if k < before.len() {
            assert(two[k] == before[k]);
        }
    }
    joined_pieces_are_found_again(two, '/');
    lemma_filled(before, owner, name);
    match front {
        Some(f) => {
            assert(before.len() > 0);
            assert(join(one, sep) == f + sep + owner);
            assert(join(two, sep) == f + sep + owner + sep + name);
        },
        None => {
            assert(one =~= seq![owner]);
            assert(join(one, sep) == owner);
            assert(join(two, sep) == owner + sep + name);
        },
    }
}

/// Whether `owner` and `name` can stand in an address, behind `head` and a colon or a slash.
pub open spec fn addressable(head: Seq<char>, sep: char, owner: Seq<char>, name: Seq<char>) -> bool {
    &&& head.len() > 0
    &&& !is_white_space(head[0])
    &&& !head.contains('\\')
    &&& sep == ':' || sep == '/'
    &&& owner.len() > 0
    &&& name.len() > 0
    &&& !owner.contains('/') && !owner.contains(':') && !owner.contains('\\')
    &&& !name.contains('/') && !name.contains(':')
    &&& !is_white_space(name.last())
    &&& !has_suffix(name, ".git"@)
}

proof fn lemma_slug(head: Seq<char>, sep: char, owner: Seq<char>, name: Seq<char>)
    requires
        addressable(head, sep, owner, name),
    ensures
        ({
            let t = head + seq![sep] + owner + seq!['/'] + name;
            &&& without_suffixes(t, ".git"@) == t
            &&& remote_path(t) matches Some(path) && {
                let parts = filled_parts(split_on(path, '/'));
                &&& parts.len() >= 2
                &&& parts[parts.len() - 2] == owner
                &&& parts[parts.len() - 1] == name
            }
        }),
{
    reveal_strlit(".git");
    let t = head + seq![sep] + owner + seq!['/'] + name;
    let n = t.len() as int;
    let h = head.len() as int;
    let tail = owner + seq!['/'] + name;
    assert(t =~= head + seq![sep] + tail);
    if has_suffix(t, ".git"@) {
        let end = t.subrange(n - 4, n);
        assert(end == ".git"@);
        if name.len() >= 4 {
            assert(name.subrange(name.len() - 4, name.len() as int) =~= end);
        } else {
            let at = 4 - name.len() - 1;
            assert(end[at] == t[n - 4 + at]);
            assert(t[n - name.len() - 1] == '/');
            assert(end[at] == '/');
            assert(".git"@[at] != '/');
        }
        assert(false);
    }
    assert forall|x: int| h < x < n implies #[trigger] t[x] != ':' by {
        let y = x - h - 1;
        if y < owner.len() {
            assert(t[x] == owner[y]);
            assert(owner.contains(owner[y]));
        } else if y > owner.len() {
            let z = y - owner.len() - 1;
            assert(t[x] == name[z]);
            assert(name.contains(name[z]));
        }
    }
    lemma_prev_char(t, ':', n);
    assert(t[h] == sep);
    assert(t.take(n) =~= t);
    assert(t.take(0) =~= seq![]);
    lemma_long(t);
    match prev_char(t, ':', n) {
        Some(c) => {
            let after = t.subrange(c + 1, n);
            if sep == ':' {
                assert(c == h);
                assert(after =~= tail);
                assert(after[0] == owner[0]);
                assert(owner.contains(owner[0]));
                lemma_last_two(None, owner, name);
            } else {
                assert(c < h);
                let f = head.subrange(c + 1, h);
                assert(after =~= f + seq!['/'] + owner + seq!['/'] + name);
                if c + 1 < h {
                    assert(after[0] == head[c + 1]);
                    assert(head.contains(head[c + 1]));
                } else {
                    assert(after[0] == '/');
                }
                lemma_last_two(Some(f), owner, name);
            }
        },
        None => {
            assert(sep == '/');
            lemma_last_two(Some(head), owner, name);
        },
    }
}

proof fn lemma_long(t: Seq<char>)
    requires
        t.len() >= 5,
    ensures
        byte_len(t) >= 5,
{
    let n = t.len() as int;
    assert(t.take(n) =~= t);
    lemma_more_bytes(t, 0, 1);
    lemma_more_bytes(t, 1, 2);
    lemma_more_bytes(t, 2, 3);
    lemma_more_bytes(t, 3, 4);
    lemma_more_bytes(t, 4, n);
}

/// The owner and the name of a repository are read from its address, whatever stands in front
/// of them: `git@host:owner/name`, an alias, `https://host/owner/name` and `ssh://host/owner/name`,
/// with or without `.git`.
pub proof fn the_repository_is_read_from_its_address(
    head: Seq<char>,
    sep: char,
    owner: Seq<char>,
    name: Seq<char>,
)
    requires
        addressable(head, sep, owner, name),
    ensures
        slug_of(head + seq![sep] + owner + seq!['/'] + name) == Some(owner + "/"@ + name),
        slug_of(head + seq![sep] + owner + seq!['/'] + name + ".git"@) == Some(
            owner + "/"@ + name,
        ),
{
    reveal_strlit(".git");
    let t = head + seq![sep] + owner + seq!['/'] + name;
    lemma_slug(head, sep, owner, name);
    assert(t[0] == head[0]);
    assert(t.last() == name.last());
    lemma_not_blank(t);
    let g = t + ".git"@;
    assert(g[0] == head[0]);
    assert(g.last() == 't');
    lemma_not_blank(g);
    assert(g.subrange(g.len() - 4, g.len() as int) =~= ".git"@);
    assert(g.subrange(0, g.len() - 4) =~= t);
    assert(without_suffixes(g, ".git"@) == without_suffixes(t, ".git"@));
}

// ---------------------------------------------------------------------------
// Accounts
// ---------------------------------------------------------------------------

proof fn lemma_word_end(s: Seq<char>, i: int, e: int)
    requires
        0 <= i <= e < s.len(),
        is_white_space(s[e]),
        forall|x: int| i <= x < e ==> !is_white_space(#[trigger] s[x]),
    ensures
        word_end(s, i) == e,
    decreases e - i,
{
    if i < e {
        assert(!is_white_space(s[i]));
        lemma_word_end(s, i + 1, e);
    }
}

/// A line of `gh auth status` that names an account adds that account to the list; it is not
/// the active one until a later line says so.
pub proof fn an_account_is_read_from_its_line(
    accounts: Seq<AccountV>,
    front: Seq<char>,
    login: Seq<char>,
    rest: Seq<char>,
    line: Seq<char>,
)
    requires
        login.len() > 0,
        forall|x: int| 0 <= x < login.len() ==> !is_white_space(#[trigger] login[x]),
        trim(line) == front + " account "@ + login + seq![' '] + rest,
        forall|j: int| 0 <= j < front.len() ==> !#[trigger] occurs_at(trim(line), " account "@, j),
    ensures
        with_status_line(accounts, line) == accounts.push(AccountV { login, active: false }),
{
    let l = trim(line);
    let mark = " account "@;
    let n = front.len() as int;
    assert(l.subrange(n, n + mark.len()) =~= mark);
    assert(occurs_at(l, mark, n));
    lemma_next_match(l, mark, 0);
    assert(next_match(l, mark, 0) == Some(n));
    let behind = l.subrange(n + mark.len(), l.len() as int);
    assert(behind =~= login + seq![' '] + rest);
    let e = login.len() as int;
    assert(behind[e] == ' ');
    assert forall|x: int| 0 <= x < e implies !is_white_space(#[trigger] behind[x]) by {
        assert(behind[x] == login[x]);
    }
    assert(!is_white_space(behind[0]));
    assert(after_space(behind, 0) == 0);
    lemma_word_end(behind, 0, e);
    assert(behind.subrange(0, e) =~= login);
    assert(first_word(behind) == login);
}

/// The line `Active account: true` marks the account named last, and only that one.
pub proof fn the_active_account_is_marked(accounts: Seq<AccountV>, line: Seq<char>)
    requires
        accounts.len() > 0,
        trim(line) == "- Active account: true"@,
    ensures
        with_status_line(accounts, line).len() == accounts.len(),
        with_status_line(accounts, line).last() == (AccountV {
            login: accounts.last().login,
            active: true,
        }),
        forall|k: int|
            0 <= k < accounts.len() - 1 ==> with_status_line(accounts, line)[k]
                == #[trigger] accounts[k],
{
    reveal_strlit("- Active account: true");
    reveal_strlit("Active account: true");
    reveal_strlit(" account ");
    let l = trim(line);
    let mark = " account "@;
    lemma_next_match(l, mark, 0);
    if next_match(l, mark, 0) is Some {
        let k = next_match(l, mark, 0)->0;
        let part = l.subrange(k, k + mark.len());
        assert(part == mark);
        assert(part[1] == 'a' && part[8] == ' ');
        assert(l[k] == part[0] && l[k + 1] == part[1] && l[k + 8] == part[8]);
        assert(false);
    }
    let flag = "Active account: true"@;
    assert(l.subrange(2, 2 + flag.len() as int) =~= flag);
    assert(occurs_at(l, flag, 2));
    lemma_next_match(l, flag, 0);
}

/// The accounts are read line by line, and none without a line.
pub proof fn accounts_are_read_line_by_line(ls: Seq<Seq<char>>, line: Seq<char>)
    ensures
        accounts_in(ls.push(line)) == with_status_line(accounts_in(ls), line),
        accounts_in(seq![]).len() == 0,
{
    assert(ls.push(line).drop_last() =~= ls);
}

/// The first token that could be had is used, and one is found where there is one.
pub proof fn the_first_token_is_used(tokens: Seq<Option<String>>, i: int)
    requires
        0 <= i <= tokens.len(),
    ensures
        match first_token(tokens, i) {
            Some(t) => exists|k: int|
                i <= k < tokens.len() && (#[trigger] tokens[k]) is Some && tokens[k]->0@ == t && (
                forall|j: int| i <= j < k ==> (#[trigger] tokens[j]) is None),
            None => forall|j: int| i <= j < tokens.len() ==> (#[trigger] tokens[j]) is None,
        },
    decreases tokens.len() - i,
{
    if i < tokens.len() && tokens[i] is None {
        the_first_token_is_used(tokens, i + 1);
    } else if i < tokens.len() {
        assert(tokens[i] is Some);
    }
}

/// Of several lines the last one that is not blank is told, without blanks around it.
pub proof fn the_last_filled_line_is_told(ls: Seq<Seq<char>>, k: int)
    requires
        0 <= k < ls.len(),
        trim(ls[k]).len() > 0,
        forall|j: int| k < j < ls.len() ==> trim(#[trigger] ls[j]).len() == 0,
    ensures
        last_filled_line(ls) == trim(ls[k]),
    decreases ls.len(),
{
    let d = ls.drop_last();
    if k < d.len() {
        assert(trim(ls[ls.len() - 1]).len() == 0);
        assert(d[k] == ls[k]);
        assert forall|j: int| k < j < d.len() implies trim(#[trigger] d[j]).len() == 0 by {
            assert(d[j] == ls[j]);
        }
        the_last_filled_line_is_told(d, k);
    }
}

// ---------------------------------------------------------------------------
// The editor that is installed
// ---------------------------------------------------------------------------

/// Of the installed versions of Rider the one with the greatest name is taken; any other
/// application is passed over.
pub proof fn the_newest_rider_is_taken(apps: Seq<InstalledApp>)
    ensures
        match newest(apps) {
            Some(i) => {
                &&& 0 <= i < apps.len()
                &&& has_prefix(apps[i].name@, "JetBrains Rider"@)
                &&& forall|k: int|
                    0 <= k < apps.len() && has_prefix(
                        (#[trigger] apps[k]).name@,
                        "JetBrains Rider"@,
                    ) ==> !before(apps[i].name@, apps[k].name@)
            },
            None => forall|k: int|
                0 <= k < apps.len() ==> !has_prefix(
                    (#[trigger] apps[k]).name@,
                    "JetBrains Rider"@,
                ),
        },
    decreases apps.len(),
{
    if apps.len() > 0 {
        let d = apps.drop_last();
        let last = apps.len() - 1;
        the_newest_rider_is_taken(d);
        let best = newest(d);
        if best is Some {
            assert(d[best->0] == apps[best->0]);
        }
        assert forall|k: int|
            0 <= k < apps.len() && newest(apps) is Some && has_prefix(
                (#[trigger] apps[k]).name@,
                "JetBrains Rider"@,
            ) implies !before(apps[newest(apps)->0].name@, apps[k].name@) by {
            let i = newest(apps)->0;
            lemma_before(apps[k].name@, apps[last].name@, apps[i].name@);
            if k < last {
                assert(d[k] == apps[k]);
                if best is Some {
                    let b = apps[best->0].name@;
                    lemma_before(apps[k].name@, b, apps[last].name@);
                }
            } else if best is Some {
                lemma_before(apps[last].name@, apps[best->0].name@, apps[last].name@);
            } else {
                lemma_before(apps[last].name@, apps[last].name@, apps[last].name@);
            }
        }
        assert forall|k: int| 0 <= k < apps.len() && newest(apps) is None implies !has_prefix(
            (#[trigger] apps[k]).name@,
            "JetBrains Rider"@,
        ) by {
            if k < last {
                assert(d[k] == apps[k]);
            }
        }
    }
}

/// Rider is looked for on the path first, then in Toolbox's places, then among the installed
/// applications.
pub proof fn where_rider_is_looked_for(s: RiderSearch)
    ensures
        s.on_path is None && s.toolbox@.len() > 0 ==> rider_of(s) == Some(s.toolbox@[0]@),
        s.on_path is None && s.toolbox@.len() == 0 && newest(s.installed@) is Some ==> rider_of(s)
            == Some(s.installed@[newest(s.installed@)->0].executable@),
        s.on_path is None && s.toolbox@.len() == 0 && newest(s.installed@) is None ==> rider_of(s)
            is None,
        s.on_path is Some && lines(s.on_path->0@).len() > 0 && trim(
            lines(s.on_path->0@)[0],
        ).len() > 0 ==> rider_of(s) == Some(trim(lines(s.on_path->0@)[0])),
{
}

} // verus!
