//! Diff engine: unified diff of a branch against the merge-base with its base branch,
//! changed-file list, and on-demand blame.
//!
//! Snapshots are cached per branch; the cache is invalidated when a session on that branch
//! finishes (`session.status_changed` → done) or on manual refresh. Every invalidation
//! publishes `diff.updated` — panels refetch, nothing is pushed.
use crate::bus::{Event, EventV};
use crate::clip::byte_len;
use crate::error::{is_config, MaestroError};
use crate::session::SessionStatus;
use crate::table::{t_del, t_get, t_get_del, t_get_put, t_put, t_unique, Table};
use crate::text::{
    chars_of, decimal, decimal_text, opt_view, same_text, string_of, text_of, to_unix, unix_text,
    windows_text, windows_text_reads_back,
};
use crate::units::{double, one_place, one_place_text};
use crate::worktree::{
    base_of, file_views, resolve_base, ChangedFile, ChangedFileV, RepoInfo, NO_REPOSITORY,
};
use vstd::prelude::*;
use vstd::string::*;

verus! {

/// What the diff is computed against.
#[derive(Clone, Copy, Debug, PartialEq, Eq, Structural, Hash)]
pub enum DiffScope {
    /// Committed changes only: merge-base → branch head.
    Branch,
    /// Everything in the working tree: merge-base → files on disk, including uncommitted
    /// edits and untracked files. The default: this is what you want to see while an agent
    /// is still working.
    Worktree,
}

impl Default for DiffScope {
    fn default() -> (s: Self)
        ensures
            s == DiffScope::Worktree,
    {
        DiffScope::Worktree
    }
}

/// Computed diff state for one branch.
#[derive(Debug)]
pub struct DiffSnapshot {
    pub branch: String,
    pub scope: DiffScope,
    pub base: String,
    pub merge_base: String,
    pub files: Vec<ChangedFile>,
    /// Raw unified diff.
    pub unified: String,
    /// Nanoseconds since the Unix epoch.
    pub computed_at: i128,
}

#[verifier::ext_equal]
pub struct SnapshotV {
    pub branch: Seq<char>,
    pub scope: DiffScope,
    pub base: Seq<char>,
    pub merge_base: Seq<char>,
    pub files: Seq<ChangedFileV>,
    pub unified: Seq<char>,
    pub computed_at: i128,
}

impl View for DiffSnapshot {
    type V = SnapshotV;

    open spec fn view(&self) -> SnapshotV {
        SnapshotV {
            branch: self.branch@,
            scope: self.scope,
            base: self.base@,
            merge_base: self.merge_base@,
            files: file_views(self.files@),
            unified: self.unified@,
            computed_at: self.computed_at,
        }
    }
}

/// Old/new contents of one changed file, for the unified editor view.
#[derive(Debug)]
pub struct FileDiff {
    pub path: String,
    /// Contents at the merge-base; `None` for added files.
    pub old: Option<String>,
    /// Contents at the branch head; `None` for deleted files.
    pub new: Option<String>,
    /// Set when the file was too large to send: the viewer shows this instead of trying to
    /// render it. Generated files and vendored bundles are the usual reason.
    pub too_large: Option<String>,
}

/// Largest side of a file diff that is handed to the editor. A real repository has generated
/// files an order of magnitude past this, and a frozen window helps nobody.
pub const MAX_FILE_DIFF_BYTES: usize = 2097152;

/// `\r\n` → `\n`. A worktree checkout on Windows with `core.autocrlf` disagrees with a git
/// blob's usually-LF content, and the frontend's own diff of these two plain strings has no
/// CRLF awareness of its own.
pub fn normalize_line_endings(text: String) -> (r: String)
    ensures
        r@ == unix_text(text@),
{
    let s: Vec<char> = chars_of(text.as_str());
    string_of(to_unix(s.as_slice()).as_slice())
}

/// A checkout with Windows line endings is not reported as edited: it normalises to what
/// the committed text does.
pub proof fn a_crlf_checkout_is_no_edit(committed: Seq<char>)
    requires
        !committed.contains('\r'),
    ensures
        normal(Some(windows_text(committed))) == normal(Some(committed)),
        normal(Some(committed)) == Some(committed),
{
    windows_text_reads_back(committed);
}

// ---------------------------------------------------------------------------
// One file
// ---------------------------------------------------------------------------

/// Where the old side of `path` is, from place `i` on: renames read it from the original
/// path.
pub open spec fn old_path_of(files: Seq<ChangedFileV>, path: Seq<char>, i: int) -> Seq<char>
    decreases files.len() - i,
{
    if i < 0 || i >= files.len() {
        path
    } else if files[i].path == path {
        match files[i].old_path {
            Some(p) => p,
            None => path,
        }
    } else {
        old_path_of(files, path, i + 1)
    }
}

/// What the new side of a file is read from.
#[derive(Clone, Copy, Debug, PartialEq, Eq, Structural)]
pub enum NewSide {
    /// The head of the branch.
    BranchHead,
    /// The worktree's file.
    OnDisk,
}

/// Where the two sides of a file are read from; the old one at the merge-base.
#[derive(Debug)]
pub struct FileSides {
    pub old_revision: String,
    pub old_path: String,
    pub new: NewSide,
}

fn old_path(files: &Vec<ChangedFile>, path: &str) -> (r: String)
    ensures
        r@ == old_path_of(file_views(files@), path@, 0),
{
    let ghost fv = file_views(files@);
    let mut i: usize = 0;
    while i < files.len()
        invariant
            i <= files@.len(),
            fv == file_views(files@),
            old_path_of(fv, path@, 0) == old_path_of(fv, path@, i as int),
        decreases files@.len() - i,
    {
        assert(fv[i as int] == files@[i as int]@);
        if same_text(files[i].path.as_str(), path) {
            return match &files[i].old_path {
                Some(p) => text_of(p.as_str()),
                None => text_of(path),
            };
        }
        i += 1;
    }
    text_of(path)
}

pub open spec fn side_len(side: Option<Seq<char>>) -> nat {
    match side {
        Some(s) => byte_len(s),
        None => 0,
    }
}

pub open spec fn normal(side: Option<Seq<char>>) -> Option<Seq<char>> {
    match side {
        Some(s) => Some(unix_text(s)),
        None => None,
    }
}

/// The size of the larger side.
pub open spec fn biggest(old: Option<Seq<char>>, new: Option<Seq<char>>) -> nat {
    if side_len(old) > side_len(new) {
        side_len(old)
    } else {
        side_len(new)
    }
}

pub open spec fn too_large_text(path: Seq<char>, bytes: nat) -> Seq<char> {
    path + " is "@ + one_place(double(bytes), 0x10_0000)
        + " MB — too large to diff in the editor (limit "@ + decimal(
        (MAX_FILE_DIFF_BYTES / 0x10_0000) as nat,
    ) + " MB). Use git or an editor for this one."@
}

fn normal_side(side: Option<String>) -> (r: Option<String>)
    ensures
        opt_view(r) == normal(opt_view(side)),
{
    match side {
        Some(s) => Some(normalize_line_endings(s)),
        None => None,
    }
}

fn len_of(side: &Option<String>) -> (n: usize)
    ensures
        n == side_len(opt_view(*side)),
{
    match side {
        Some(s) => s.as_str().as_bytes().len(),
        None => 0,
    }
}

// ---------------------------------------------------------------------------
// The cache
// ---------------------------------------------------------------------------

/// The diffs that were computed.
#[derive(Debug)]
pub struct DiffManager {
    pub committed: Table<DiffSnapshot>,
    pub on_disk: Table<DiffSnapshot>,
}

/// What is cached, per scope.
#[verifier::ext_equal]
pub struct CacheV {
    pub committed: Seq<(Seq<char>, SnapshotV)>,
    pub on_disk: Seq<(Seq<char>, SnapshotV)>,
}

pub open spec fn cached(c: CacheV, branch: Seq<char>, scope: DiffScope) -> Option<SnapshotV> {
    match scope {
        DiffScope::Branch => t_get(c.committed, branch),
        DiffScope::Worktree => t_get(c.on_disk, branch),
    }
}

/// The cache with one more snapshot.
pub open spec fn with_snapshot(c: CacheV, s: SnapshotV) -> CacheV {
    match s.scope {
        DiffScope::Branch => CacheV { committed: t_put(c.committed, s.branch, s), ..c },
        DiffScope::Worktree => CacheV { on_disk: t_put(c.on_disk, s.branch, s), ..c },
    }
}

/// The cache without the snapshots of a branch.
pub open spec fn without_branch(c: CacheV, branch: Seq<char>) -> CacheV {
    CacheV { committed: t_del(c.committed, branch), on_disk: t_del(c.on_disk, branch) }
}

impl View for DiffManager {
    type V = CacheV;

    open spec fn view(&self) -> CacheV {
        CacheV { committed: self.committed@, on_disk: self.on_disk@ }
    }
}

impl DiffManager {
    pub open spec fn wf(self) -> bool {
        self.committed.wf() && self.on_disk.wf()
    }

    pub fn new() -> (m: Self)
        ensures
            m.wf(),
            m@ == (CacheV { committed: seq![], on_disk: seq![] }),
    {
        DiffManager { committed: Table::new(), on_disk: Table::new() }
    }

    /// Cached snapshot for `branch` in `scope`; it is to be computed where there is none.
    pub fn get(&self, branch: &str, scope: DiffScope) -> (r: Option<&DiffSnapshot>)
        requires
            self.wf(),
        ensures
            match r {
                Some(s) => cached(self@, branch@, scope) == Some(s@),
                None => cached(self@, branch@, scope) is None,
            },
    {
        match scope {
            DiffScope::Branch => self.committed.get(branch),
            DiffScope::Worktree => self.on_disk.get(branch),
        }
    }

    /// Keep a snapshot that was computed.
    pub fn computed(&mut self, snapshot: DiffSnapshot)
        requires
            old(self).wf(),
        ensures
            final(self).wf(),
            final(self)@ == with_snapshot(old(self)@, snapshot@),
    {
        let branch: String = text_of(snapshot.branch.as_str());
        match snapshot.scope {
            DiffScope::Branch => self.committed.insert(branch.as_str(), snapshot),
            DiffScope::Worktree => self.on_disk.insert(branch.as_str(), snapshot),
        }
    }

    /// Keep a snapshot that was recomputed on demand, and publish `diff.updated`.
    pub fn refresh(&mut self, snapshot: DiffSnapshot) -> (e: Event)
        requires
            old(self).wf(),
        ensures
            final(self).wf(),
            final(self)@ == with_snapshot(old(self)@, snapshot@),
            e@ == (EventV::DiffUpdated { branch: snapshot.branch@ }),
    {
        let event: Event = Event::DiffUpdated { branch: text_of(snapshot.branch.as_str()) };
        self.computed(snapshot);
        event
    }

    /// Drop cached snapshots for both scopes and publish `diff.updated`.
    pub fn invalidate(&mut self, branch: &str) -> (e: Event)
        requires
            old(self).wf(),
        ensures
            final(self).wf(),
            final(self)@ == without_branch(old(self)@, branch@),
            e@ == (EventV::DiffUpdated { branch: branch@ }),
    {
        let _: Option<DiffSnapshot> = self.committed.remove(branch);
        let _: Option<DiffSnapshot> = self.on_disk.remove(branch);
        Event::DiffUpdated { branch: text_of(branch) }
    }

    /// Invalidate a branch's diff whenever a session on it finishes.
    pub fn on_event(&mut self, event: &Event) -> (r: Option<Event>)
        requires
            old(self).wf(),
        ensures
            final(self).wf(),
            match *event {
                Event::SessionStatusChanged { branch, status, .. } => if status
                    == SessionStatus::Done {
                    final(self)@ == without_branch(old(self)@, branch@) && (r matches Some(e)
                        && e@ == (EventV::DiffUpdated { branch: branch@ }))
                } else {
                    final(self)@ == old(self)@ && r is None
                },
                _ => final(self)@ == old(self)@ && r is None,
            },
    {
        match event {
            Event::SessionStatusChanged { branch, status, .. } => {
                if *status == SessionStatus::Done {
                    Some(self.invalidate(branch.as_str()))
                } else {
                    None
                }
            },
            _ => None,
        }
    }

    /// Events were missed: which diffs they made stale is not known, so all of them go.
    pub fn lagged(&mut self)
        ensures
            final(self).wf(),
            final(self)@ == (CacheV { committed: seq![], on_disk: seq![] }),
    {
        self.committed = Table::new();
        self.on_disk = Table::new();
    }

    /// The branch's stored base branch, falling back to the repository's default.
    pub fn base_for(stored: &Option<String>, repo: Option<&RepoInfo>) -> (r: Result<
        String,
        MaestroError,
    >)
        ensures
            match base_of(
                None,
                opt_view(*stored),
                match repo {
                    Some(i) => Some(*i),
                    None => None,
                },
            ) {
                Some(base) => r matches Ok(b) && b@ == base,
                None => r matches Err(e) && is_config(e, NO_REPOSITORY@),
            },
    {
        resolve_base(None, stored, repo)
    }

    /// Where the two sides of one file of a diff are read from.
    pub fn sides(snapshot: &DiffSnapshot, path: &str) -> (r: FileSides)
        ensures
            r.old_revision@ == snapshot.merge_base@,
            r.old_path@ == old_path_of(file_views(snapshot.files@), path@, 0),
            r.new == (match snapshot.scope {
                DiffScope::Branch => NewSide::BranchHead,
                DiffScope::Worktree => NewSide::OnDisk,
            }),
    {
        FileSides {
            old_revision: text_of(snapshot.merge_base.as_str()),
            old_path: old_path(&snapshot.files, path),
            new: match snapshot.scope {
                DiffScope::Branch => NewSide::BranchHead,
                DiffScope::Worktree => NewSide::OnDisk,
            },
        }
    }

    /// Old/new contents for one file of the branch's diff, from the two sides as they were
    /// read. Both are normalised: a line-ending mismatch alone makes every line look changed
    /// even when only one word differs. Both are read before the size check, so a huge file
    /// still reports its size — the answer to "why can I not see this diff" is the file.
    pub fn file_diff(path: &str, old_side: Option<String>, new_side: Option<String>) -> (r:
        FileDiff)
        ensures
            r.path@ == path@,
            ({
                let o = normal(opt_view(old_side));
                let n = normal(opt_view(new_side));
                if biggest(o, n) > MAX_FILE_DIFF_BYTES {
                    r.old is None && r.new is None && opt_view(r.too_large) == Some(
                        too_large_text(path@, biggest(o, n)),
                    )
                } else {
                    opt_view(r.old) == o && opt_view(r.new) == n && r.too_large is None
                }
            }),
    {
        let o: Option<String> = normal_side(old_side);
        let n: Option<String> = normal_side(new_side);
        let a: usize = len_of(&o);
        let b: usize = len_of(&n);
        let bytes: usize = if a > b {
            a
        } else {
            b
        };
        if bytes > MAX_FILE_DIFF_BYTES {
            let text: String = text_of(path).concat(" is ").concat(
                one_place_text(bytes as u64, 0x10_0000).as_str(),
            ).concat(" MB — too large to diff in the editor (limit ").concat(
                decimal_text((MAX_FILE_DIFF_BYTES / 0x10_0000) as u64).as_str(),
            ).concat(" MB). Use git or an editor for this one.");
            return FileDiff {
                path: text_of(path),
                old: None,
                new: None,
                too_large: Some(text),
            };
        }
        FileDiff { path: text_of(path), old: o, new: n, too_large: None }
    }
}

/// A diff that was computed is what is found until its branch is invalidated; then it is
/// to be computed again. Other branches and the other scope are not touched.
pub proof fn a_diff_is_cached_until_it_is_invalidated(
    c: CacheV,
    s: SnapshotV,
    branch: Seq<char>,
    scope: DiffScope,
)
    requires
        t_unique(c.committed),
        t_unique(c.on_disk),
    ensures
        cached(with_snapshot(c, s), s.branch, s.scope) == Some(s),
        branch != s.branch || scope != s.scope ==> cached(with_snapshot(c, s), branch, scope)
            == cached(c, branch, scope),
        cached(without_branch(c, s.branch), s.branch, scope) is None,
        branch != s.branch ==> cached(without_branch(c, s.branch), branch, scope) == cached(
            c,
            branch,
            scope,
        ),
{
    t_get_put(c.committed, s.branch, s, branch);
    t_get_put(c.on_disk, s.branch, s, branch);
    t_get_put(c.committed, s.branch, s, s.branch);
    t_get_put(c.on_disk, s.branch, s, s.branch);
    t_get_del(c.committed, s.branch, branch);
    t_get_del(c.on_disk, s.branch, branch);
    t_get_del(c.committed, s.branch, s.branch);
    t_get_del(c.on_disk, s.branch, s.branch);
}

} // verus!
