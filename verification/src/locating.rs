//! What a path names, what a line refers to, and what an attack is told about its target.
use crate::daemon::briefing::{includes, lemma_includes};
use crate::diff::{too_large_text, MAX_FILE_DIFF_BYTES};
use crate::impact::{
    components, extension_of, file_name, file_stem, has_word, imports_only, importer_signatures,
    is_identifier_char, is_import, is_word_at, parent_name, path_components, ring_two,
    signature_of, ImpactedV, LinkV, RingV, ScannedV, SignatureV,
};
use crate::redteam::{attack_vars, dependents, file_line, file_lines, Target};
use crate::table::{t_get, t_get_put, t_put};
use crate::text::{
    decimal, has_prefix, join, lemma_next_match, lowered, next_match, occurs_at, opt_view,
    prev_char, split_on,
};
use crate::units::{double, one_place};
use crate::worktree::file_views;
use vstd::prelude::*;

verus! {

// ---------------------------------------------------------------------------
// Paths
// ---------------------------------------------------------------------------

/// Whether `name` is the name of a file or a directory.
pub open spec fn is_name(name: Seq<char>) -> bool {
    name.len() > 0 && !name.contains('/') && name != seq!['.'] && name != seq!['.', '.']
}

proof fn lemma_path(front: Option<Seq<char>>, dir: Seq<char>, name: Seq<char>)
    requires
        is_name(dir),
        is_name(name),
    ensures
        ({
            let path = match front {
                Some(f) => f + seq!['/'] + dir + seq!['/'] + name,
                None => dir + seq!['/'] + name,
            };
            file_name(path) == Some(name) && parent_name(path) == Some(dir)
        }),
{
    let sep = seq!['/'];
    let before = match front {
        Some(f) => split_on(f, '/'),
        None => seq![],
    };
    if front is Some {
        crate::reading::pieces_make_the_text_again(front->0, '/');
    }
    let one = before.push(dir);
    let two = one.push(name);
    assert(one.drop_last() =~= before);
    assert(two.drop_last() =~= one);
    assert forall|k: int| 0 <= k < two.len() implies !(#[trigger] two[k]).contains('/') by {
        if k < before.len() {
            assert(two[k] == before[k]);
        }
    }
    crate::reading::joined_pieces_are_found_again(two, '/');
    assert(components(one) == components(before).push(dir));
    assert(components(two) == components(one).push(name));
    match front {
        Some(f) => {
            assert(before.len() > 0);
            assert(join(one, sep) == f + sep + dir);
        },
        None => {
            assert(one =~= seq![dir]);
            assert(join(one, sep) == dir);
        },
    }
    let path = match front {
        Some(f) => f + sep + dir + sep + name,
        None => dir + sep + name,
    };
    assert(join(two, sep) == path);
    assert(path_components(path) == components(two));
}

proof fn lemma_dot(stem: Seq<char>, ext: Seq<char>)
    requires
        stem.len() > 0,
        !ext.contains('.'),
    ensures
        prev_char(stem + seq!['.'] + ext, '.', (stem.len() + 1 + ext.len()) as int) == Some(
            stem.len() as int,
        ),
{
    let s = stem + seq!['.'] + ext;
    assert(s.subrange(stem.len() as int + 1, s.len() as int) =~= ext);
    lemma_dot_from(s, stem.len() as int, s.len() as int, ext);
}

proof fn lemma_dot_from(s: Seq<char>, n: int, j: int, ext: Seq<char>)
    requires
        0 <= n < j <= s.len(),
        s[n] == '.',
        !ext.contains('.'),
        s.subrange(n + 1, s.len() as int) == ext,
    ensures
        prev_char(s, '.', j) == Some(n),
    decreases j,
{
    if j > n + 1 {
        assert(s.subrange(n + 1, s.len() as int)[j - 1 - n - 1] == s[j - 1]);
        assert(ext.contains(ext[j - 1 - n - 1]));
        lemma_dot_from(s, n, j - 1, ext);
    }
}

/// A file is known by its name without the extension, and by its directory where that name is
/// `mod`, `index`, `main`, `lib`, `types`, `utils` or `helpers`, in any case; its extension
/// is read in lower case.
pub proof fn what_a_file_is_known_by(
    front: Option<Seq<char>>,
    dir: Seq<char>,
    stem: Seq<char>,
    ext: Seq<char>,
)
    requires
        is_name(dir),
        stem.len() > 0,
        !stem.contains('/'),
        ext.len() > 0,
        !ext.contains('.'),
        !ext.contains('/'),
    ensures
        ({
            let path = match front {
                Some(f) => f + seq!['/'] + dir + seq!['/'] + (stem + seq!['.'] + ext),
                None => dir + seq!['/'] + (stem + seq!['.'] + ext),
            };
            let l = lowered(stem);
            &&& extension_of(path) == lowered(ext)
            &&& l == "mod"@ || l == "index"@ || l == "main"@ || l == "lib"@ || l == "types"@ || l
                == "utils"@ || l == "helpers"@ ==> file_stem(path) == dir
            &&& l != "mod"@ && l != "index"@ && l != "main"@ && l != "lib"@ && l != "types"@ && l
                != "utils"@ && l != "helpers"@ ==> file_stem(path) == stem
        }),
{
    let name = stem + seq!['.'] + ext;
    assert(name.len() >= 3);
    assert(!name.contains('/')) by {
        if name.contains('/') {
            let i = choose|i: int| 0 <= i < name.len() && name[i] == '/';
            if i < stem.len() {
                assert(stem[i] == '/');
                assert(stem.contains(stem[i]));
            } else if i > stem.len() {
                assert(ext[i - stem.len() - 1] == '/');
                assert(ext.contains(ext[i - stem.len() - 1]));
            }
        }
    }
    assert(is_name(name));
    lemma_path(front, dir, name);
    lemma_dot(stem, ext);
    assert(name.subrange(0, stem.len() as int) =~= stem);
    assert(name.subrange(stem.len() as int + 1, name.len() as int) =~= ext);
}

// ---------------------------------------------------------------------------
// What a line refers to
// ---------------------------------------------------------------------------

proof fn lemma_prefix(word: Seq<char>, rest: Seq<char>)
    ensures
        has_prefix(word + rest, word),
{
    assert((word + rest).subrange(0, word.len() as int) =~= word);
}

proof fn lemma_inside(a: Seq<char>, word: Seq<char>, b: Seq<char>)
    ensures
        next_match(a + word + b, word, 0) is Some,
{
    let s = a + word + b;
    let n = a.len() as int;
    assert(s.subrange(n, n + word.len()) =~= word);
    assert(occurs_at(s, word, n));
    lemma_next_match(s, word, 0);
}

/// Lines that import something are told by how they begin, and by a call of `require`.
pub proof fn what_imports_something(rest: Seq<char>, more: Seq<char>)
    ensures
        is_import("use "@ + rest),
        is_import("import "@ + rest),
        is_import("from "@ + rest),
        is_import("export "@ + rest + " from "@ + more),
        is_import(rest + "require("@ + more),
{
    lemma_prefix("use "@, rest);
    lemma_prefix("import "@, rest);
    lemma_prefix("from "@, rest);
    let e = "export "@ + rest + " from "@ + more;
    lemma_prefix("export "@, rest + " from "@ + more);
    assert(e =~= "export "@ + (rest + " from "@ + more));
    lemma_inside("export "@ + rest, " from "@, more);
    lemma_inside(rest, "require("@, more);
}

/// A name is referred to where it stands between characters that belong to no name, and not
/// where it is a part of a longer one.
pub proof fn a_name_is_referred_to_as_a_whole(
    a: Seq<char>,
    name: Seq<char>,
    b: Seq<char>,
)
    requires
        name.len() > 0,
        a.len() == 0 || !(('0' <= a.last() && a.last() <= '9') || ('a' <= a.last() && a.last()
            <= 'z') || ('A' <= a.last() && a.last() <= 'Z') || a.last() == '_'),
        b.len() == 0 || !(('0' <= b[0] && b[0] <= '9') || ('a' <= b[0] && b[0] <= 'z') || ('A'
            <= b[0] && b[0] <= 'Z') || b[0] == '_'),
    ensures
        has_word(a + name + b, name),
{
    let s = a + name + b;
    let n = a.len() as int;
    assert(s.subrange(n, n + name.len()) =~= name);
    if n > 0 {
        assert(s[n - 1] == a.last());
    }
    if b.len() > 0 {
        assert(s[n + name.len()] == b[0]);
    }
    assert(is_word_at(s, name, n));
}

/// A longer name is no reference to the shorter one in it.
pub proof fn a_longer_name_is_another(name: Seq<char>, c: char)
    requires
        name.len() > 0,
        is_identifier_char(c),
    ensures
        !has_word(name.push(c), name),
        !has_word(seq![c] + name, name),
        !has_word(seq![], name),
{
    let t = seq![c] + name;
    if has_word(t, name) {
        let i = choose|i: int| 0 <= i < t.len() && #[trigger] is_word_at(t, name, i);
        assert(t[0] == c);
        if i == 0 {
            let n = name.len() as int;
            assert(t.subrange(0, n) == name);
            lemma_all_first(name, c, n);
            assert(t[n] == c);
        }
    }
    let s = name.push(c);
    if has_word(s, name) {
        let i = choose|i: int| 0 <= i < s.len() && #[trigger] is_word_at(s, name, i);
        assert(s[name.len() as int] == c);
        if i == 1 {
            let part = s.subrange(1, 1 + name.len() as int);
            assert(part == name);
            lemma_all_same(name, c, 0);
            assert(s[0] == c);
        }
    }
}

proof fn lemma_all_first(name: Seq<char>, c: char, k: int)
    requires
        0 <= k <= name.len(),
        (seq![c] + name).subrange(0, name.len() as int) == name,
    ensures
        (seq![c] + name)[k] == c,
    decreases k,
{
    let s = seq![c] + name;
    if k > 0 {
        lemma_all_first(name, c, k - 1);
        assert(s.subrange(0, name.len() as int)[k - 1] == s[k - 1]);
        assert(s[k] == name[k - 1]);
    }
}

proof fn lemma_all_same(name: Seq<char>, c: char, k: int)
    requires
        0 <= k < name.len(),
        name.push(c).subrange(1, 1 + name.len() as int) == name,
    ensures
        name[k] == c,
    decreases name.len() - k,
{
    let s = name.push(c);
    assert(s.subrange(1, 1 + name.len() as int)[k] == s[k + 1]);
    if k + 1 < name.len() {
        lemma_all_same(name, c, k + 1);
    }
}

// ---------------------------------------------------------------------------
// The second ring
// ---------------------------------------------------------------------------

/// Of the links of a file, those that are imports count in the second ring, and no others.
pub proof fn only_imports_count_twice(links: Seq<LinkV>, x: LinkV)
    ensures
        imports_only(links).contains(x) <==> links.contains(x) && x.kind == "import"@,
    decreases links.len(),
{
    if links.len() > 0 {
        let d = links.drop_last();
        let before = imports_only(d);
        let all = imports_only(links);
        only_imports_count_twice(d, x);
        if all.contains(x) {
            let i = choose|i: int| 0 <= i < all.len() && all[i] == x;
            if i < before.len() {
                assert(before[i] == x);
                let j = choose|j: int| 0 <= j < d.len() && d[j] == x;
                assert(links[j] == x);
            } else {
                assert(links[links.len() - 1] == x);
            }
        }
        if links.contains(x) && x.kind == "import"@ {
            let j = choose|j: int| 0 <= j < links.len() && links[j] == x;
            if j < d.len() {
                assert(d[j] == x);
                let i = choose|i: int| 0 <= i < before.len() && before[i] == x;
                assert(all[i] == x);
            } else {
                assert(all[all.len() - 1] == x);
            }
        }
    }
}

/// Who imports a changed file is looked for in its turn, under the name it is known by.
pub proof fn importers_are_looked_for(impacted: Seq<ImpactedV>, k: int)
    requires
        0 <= k < impacted.len(),
        impacted[k].kind == "import"@,
    ensures
        importer_signatures(impacted).contains(signature_of(impacted[k].path, None)),
    decreases impacted.len(),
{
    let d = impacted.drop_last();
    let before = importer_signatures(d);
    let all = importer_signatures(impacted);
    let want = signature_of(impacted[k].path, None);
    if k < d.len() {
        assert(d[k] == impacted[k]);
        importers_are_looked_for(d, k);
        let i = choose|i: int| 0 <= i < before.len() && before[i] == want;
        assert(all[i] == want);
    } else {
        assert(all[all.len() - 1] == want);
    }
}

/// The second ring keeps the first as it is, and whatever it adds is two steps away and was
/// not in the first.
pub proof fn the_second_ring_is_two_steps_away(
    files: Seq<ScannedV>,
    sigs: Seq<SignatureV>,
    ring: RingV,
)
    ensures
        ({
            let all = ring_two(files, sigs, ring).impacted;
            &&& all.len() >= ring.impacted.len()
            &&& forall|k: int|
                0 <= k < ring.impacted.len() ==> #[trigger] all[k] == ring.impacted[k]
            &&& forall|k: int|
                ring.impacted.len() <= k < all.len() ==> (#[trigger] all[k]).distance == 2 && (
                forall|j: int|
                    0 <= j < ring.impacted.len() ==> (#[trigger] ring.impacted[j]).path
                        != all[k].path)
        }),
    decreases files.len(),
{
    if files.len() > 0 {
        the_second_ring_is_two_steps_away(files.drop_last(), sigs, ring);
        let before = ring_two(files.drop_last(), sigs, ring).impacted;
        let all = ring_two(files, sigs, ring).impacted;
        assert forall|k: int| 0 <= k < ring.impacted.len() implies #[trigger] all[k]
            == ring.impacted[k] by {
            assert(before[k] == ring.impacted[k]);
        }
        assert forall|k: int| ring.impacted.len() <= k < all.len() implies (
        #[trigger] all[k]).distance == 2 && (forall|j: int|
            0 <= j < ring.impacted.len() ==> (#[trigger] ring.impacted[j]).path
                != all[k].path) by {
            if k < before.len() {
                assert(all[k] == before[k]);
            }
        }
    }
}

// ---------------------------------------------------------------------------
// Diffs and attacks
// ---------------------------------------------------------------------------

/// A diff of more than two megabytes is not shown, and the file and its size are named.
pub proof fn a_large_diff_is_named_with_its_size(path: Seq<char>, bytes: nat)
    ensures
        MAX_FILE_DIFF_BYTES == 2 * 1024 * 1024,
        includes(too_large_text(path, bytes), path),
        includes(too_large_text(path, bytes), one_place(double(bytes), 1024 * 1024)),
        includes(too_large_text(path, bytes), decimal(2)),
{
    let t = too_large_text(path, bytes);
    let size = one_place(double(bytes), 0x10_0000);
    let a = " MB — too large to diff in the editor (limit "@;
    let b = " MB). Use git or an editor for this one."@;
    assert((MAX_FILE_DIFF_BYTES / 0x10_0000) as nat == 2);
    assert(t =~= seq![] + path + (" is "@ + size + a + decimal(2) + b));
    lemma_includes(t, seq![], path, " is "@ + size + a + decimal(2) + b);
    assert(t =~= (path + " is "@) + size + (a + decimal(2) + b));
    lemma_includes(t, path + " is "@, size, a + decimal(2) + b);
    assert(t =~= (path + " is "@ + size + a) + decimal(2) + b);
    lemma_includes(t, path + " is "@ + size + a, decimal(2), b);
}

/// An attack is told the branch, what it is held against, its task, its notes, whom the change
/// reaches, and every changed file with what happened to it.
pub proof fn an_attack_is_told_its_target(t: Target, k: int)
    requires
        0 <= k < t.files@.len(),
    ensures
        ({
            let vars = attack_vars(t);
            &&& t_get(vars, "parent_branch"@) == Some(t.branch@)
            &&& t_get(vars, "base"@) == Some(t.base@)
            &&& t_get(vars, "impacted"@) == Some(dependents(t.impact))
            &&& t.task_id matches Some(id) ==> t_get(vars, "task_id"@) == Some(id@)
            &&& t.task_id is None ==> t_get(vars, "task_id"@) == Some("(none)"@)
            &&& t.notes matches Some(notes) ==> t_get(vars, "notes"@) == Some(notes@)
            &&& t_get(vars, "files"@) is Some
            &&& includes(
                t_get(vars, "files"@)->0,
                t.files@[k].status@ + " "@ + t.files@[k].path@,
            )
        }),
{
    reveal_strlit("parent_branch");
    reveal_strlit("base");
    reveal_strlit("impacted");
    reveal_strlit("task_id");
    reveal_strlit("files");
    reveal_strlit("notes");
    assert("parent_branch"@.len() == 13 && "base"@.len() == 4 && "impacted"@.len() == 8
        && "task_id"@.len() == 7 && "files"@.len() == 5 && "notes"@.len() == 5);
    assert("files"@[0] == 'f' && "notes"@[0] == 'n');
    let none = Seq::<(Seq<char>, Seq<char>)>::empty();
    let task = match opt_view(t.task_id) {
        Some(id) => id,
        None => "(none)"@,
    };
    let notes = crate::redteam::or_text(opt_view(t.notes), crate::redteam::NO_NOTES@);
    let lines = file_lines(file_views(t.files@));
    let files = join(lines, "\n"@);
    let a = t_put(none, "parent_branch"@, t.branch@);
    let b = t_put(a, "base"@, t.base@);
    let c = t_put(b, "impacted"@, dependents(t.impact));
    let d = t_put(c, "task_id"@, task);
    let e = t_put(d, "files"@, files);
    crate::asking::lemma_put_unique(none, "parent_branch"@, t.branch@);
    crate::asking::lemma_put_unique(a, "base"@, t.base@);
    crate::asking::lemma_put_unique(b, "impacted"@, dependents(t.impact));
    crate::asking::lemma_put_unique(c, "task_id"@, task);
    crate::asking::lemma_put_unique(d, "files"@, files);
    let vars = attack_vars(t);
    assert(vars == t_put(e, "notes"@, notes));
    let keys = seq!["parent_branch"@, "base"@, "impacted"@, "task_id"@, "files"@, "notes"@];
    let values = seq![t.branch@, t.base@, dependents(t.impact), task, files, notes];
    assert forall|i: int| 0 <= i < 6 implies #[trigger] t_get(vars, keys[i]) == Some(
        values[i],
    ) by {
        let q = keys[i];
        t_get_put(e, "notes"@, notes, q);
        t_get_put(d, "files"@, files, q);
        t_get_put(c, "task_id"@, task, q);
        t_get_put(b, "impacted"@, dependents(t.impact), q);
        t_get_put(a, "base"@, t.base@, q);
        t_get_put(none, "parent_branch"@, t.branch@, q);
    }
    assert(t_get(vars, keys[0]) is Some && t_get(vars, keys[1]) is Some && t_get(vars, keys[2])
        is Some && t_get(vars, keys[3]) is Some && t_get(vars, keys[4]) is Some && t_get(
        vars,
        keys[5],
    ) is Some);
    assert(file_views(t.files@)[k] == t.files@[k]@);
    assert(lines[k] == file_line(t.files@[k]@));
    assert(lines[k] == t.files@[k].status@ + " "@ + t.files@[k].path@);
    crate::upkeep::lemma_joined(lines, "\n"@, k);
}

} // verus!
