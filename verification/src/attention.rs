//! Attention queue.
//!
//! One place that answers "who needs me?". Everything that can block a fleet of agents — an
//! inline permission request, a gated commit/push, a failed session, a line-question answer
//! that arrived while the user was elsewhere — becomes an [`AttentionItem`] here.
//!
//! The queue is derived purely from bus events, so it stays correct no matter which module
//! produced the situation, and it announces `attention.updated` when it changes: panels
//! refetch, nothing is pushed into them.
use crate::bus::{Event, EventV};
use crate::gate::rules::GateParam;
use crate::json::Json;
use crate::session::SessionStatus;
use crate::outside::millis;
use crate::sorting::{
    is_ranking, is_sorted, item_views, items_of_one_rank_keep_their_order, sort_ranked, sorted,
    sorting_keeps_the_items_and_orders_them, Ranked,
};
use crate::table::{
    t_del, t_get, t_get_at, t_get_del, t_get_has, t_get_put, t_put, t_unique, Entry, Table,
};
use crate::text::{
    has_text, opt_text, opt_view, same_text, signed_decimal, signed_text, text_of, views,
};
use vstd::prelude::*;
use vstd::string::*;

verus! {

/// Where the user lands when clicking the item.
#[derive(Clone, Copy, Debug, PartialEq, Eq, Structural)]
pub enum AttentionTarget {
    /// The session's chat tab (inline permission prompt, agent question).
    Chat,
    /// A gate dialog (it is modal, so navigation just means "answer it").
    Gate,
    /// The diff viewer of the branch (line-question answer waiting inline).
    Diff,
    /// The PR-replies dialog for the branch (a daemon review plan is ready).
    PrReplies,
    /// The notes tab of the branch (a red-team's REDTEAM.md is ready to read).
    Notes,
}

/// What kind of situation is waiting. The UI can label and sort without knowing which core
/// module raised it.
#[derive(Clone, Copy, Debug, PartialEq, Eq, Structural)]
pub enum AttentionKind {
    PermissionRequest,
    /// The agent raised a blocking dialog (AskUserQuestion) and cannot continue.
    Question,
    Gate,
    SessionFailed,
    LineQuestion,
    /// A daemon-prepared PR-comment reply plan is awaiting_input, ready to review.
    PrReviewReady,
    /// A red-team session finished its attack pass — REDTEAM.md is ready to send back to the
    /// parent branch.
    RedTeamReady,
}

/// Higher sorts first.
pub open spec fn priority_of(k: AttentionKind) -> u8 {
    match k {
        AttentionKind::Gate | AttentionKind::Question => 4,
        AttentionKind::PermissionRequest => 3,
        AttentionKind::PrReviewReady | AttentionKind::RedTeamReady => 2,
        AttentionKind::SessionFailed => 1,
        AttentionKind::LineQuestion => 0,
    }
}

pub open spec fn target_of(k: AttentionKind) -> AttentionTarget {
    match k {
        AttentionKind::Gate => AttentionTarget::Gate,
        AttentionKind::PermissionRequest
        | AttentionKind::Question
        | AttentionKind::SessionFailed => AttentionTarget::Chat,
        AttentionKind::LineQuestion => AttentionTarget::Diff,
        AttentionKind::PrReviewReady => AttentionTarget::PrReplies,
        AttentionKind::RedTeamReady => AttentionTarget::Notes,
    }
}

impl AttentionKind {
    /// Higher sorts first: things that block an agent outrank things that merely finished,
    /// so a fleet of four agents surfaces the blocking one at the top.
    pub fn priority(&self) -> (p: u8)
        ensures
            p == priority_of(*self),
    {
        match self {
            AttentionKind::Gate => 4,
            AttentionKind::Question => 4,
            AttentionKind::PermissionRequest => 3,
            AttentionKind::PrReviewReady => 2,
            AttentionKind::RedTeamReady => 2,
            AttentionKind::SessionFailed => 1,
            AttentionKind::LineQuestion => 0,
        }
    }

    pub fn target(&self) -> (t: AttentionTarget)
        ensures
            t == target_of(*self),
    {
        match self {
            AttentionKind::Gate => AttentionTarget::Gate,
            AttentionKind::PermissionRequest
            | AttentionKind::Question
            | AttentionKind::SessionFailed => AttentionTarget::Chat,
            AttentionKind::LineQuestion => AttentionTarget::Diff,
            AttentionKind::PrReviewReady => AttentionTarget::PrReplies,
            // The deliverable is REDTEAM.md, rendered in the Notes tab.
            AttentionKind::RedTeamReady => AttentionTarget::Notes,
        }
    }
}

/// One entry in the queue.
#[derive(Debug)]
pub struct AttentionItem {
    /// Stable id: also the dedup key, so a repeated event does not pile up entries.
    pub id: String,
    pub kind: AttentionKind,
    pub target: AttentionTarget,
    pub branch: Option<String>,
    pub session_id: Option<String>,
    /// One line for the panel.
    pub message: String,
    /// Nanoseconds since the Unix epoch.
    pub created_at: i128,
}

#[verifier::ext_equal]
pub struct ItemV {
    pub id: Seq<char>,
    pub kind: AttentionKind,
    pub target: AttentionTarget,
    pub branch: Option<Seq<char>>,
    pub session_id: Option<Seq<char>>,
    pub message: Seq<char>,
    pub created_at: i128,
}

impl View for AttentionItem {
    type V = ItemV;

    open spec fn view(&self) -> ItemV {
        ItemV {
            id: self.id@,
            kind: self.kind,
            target: self.target,
            branch: opt_view(self.branch),
            session_id: opt_view(self.session_id),
            message: self.message@,
            created_at: self.created_at,
        }
    }
}

impl Ranked for AttentionItem {
    /// Most urgent first, newest first within a priority.
    open spec fn in_order(a: ItemV, b: ItemV) -> bool {
        priority_of(a.kind) > priority_of(b.kind) || (priority_of(a.kind) == priority_of(b.kind)
            && a.created_at >= b.created_at)
    }

    fn may_precede(&self, other: &Self) -> bool {
        let mine: u8 = self.kind.priority();
        let theirs: u8 = other.kind.priority();
        mine > theirs || (mine == theirs && self.created_at >= other.created_at)
    }
}

/// Setting gating OS notifications (`"true"` enables them).
pub const SETTING_OS_NOTIFICATIONS: &'static str = "os_notifications";

/// Setting for coalescing notifications that arrive close together into one "N items need
/// you" notification instead of firing one per item (`"true"` enables digesting; the
/// frontend owns the actual debounce/coalescing since that's where notifications are sent).
pub const SETTING_NOTIFICATION_DIGEST: &'static str = "notification_digest";

#[derive(Debug)]
pub struct AttentionManager {
    pub items: Table<AttentionItem>,
    /// Sessions whose problems are nobody's business: escalations answer another agent's
    /// question and are closed either way, so a failed one must not nag the user.
    pub ignored: Vec<String>,
}

#[verifier::ext_equal]
pub struct QueueV {
    pub items: Seq<(Seq<char>, ItemV)>,
    pub ignored: Seq<Seq<char>>,
}

impl View for AttentionManager {
    type V = QueueV;

    open spec fn view(&self) -> QueueV {
        QueueV { items: self.items@, ignored: views(self.ignored@) }
    }
}

/// Which items stay.
pub enum KeepV {
    Gates,
    NotOf(Seq<char>),
    NotPermissionsOf(Seq<char>),
}

pub open spec fn keeps(k: KeepV, item: ItemV) -> bool {
    match k {
        KeepV::Gates => item.kind == AttentionKind::Gate,
        KeepV::NotOf(id) => item.session_id != Some(id),
        KeepV::NotPermissionsOf(id) => !(item.kind == AttentionKind::PermissionRequest
            && item.session_id == Some(id)),
    }
}

/// The items that stay, in their order.
pub open spec fn retained(items: Seq<(Seq<char>, ItemV)>, k: KeepV) -> Seq<(Seq<char>, ItemV)>
    decreases items.len(),
{
    if items.len() == 0 {
        seq![]
    } else {
        let before = retained(items.drop_last(), k);
        if keeps(k, items.last().1) {
            before.push(items.last())
        } else {
            before
        }
    }
}

/// What stays is part of what there was, keys stay unique, and nothing that should stay is
/// lost.
pub proof fn lemma_retained(items: Seq<(Seq<char>, ItemV)>, k: KeepV)
    requires
        t_unique(items),
    ensures
        t_unique(retained(items, k)),
        retained(items, k).len() <= items.len(),
        forall|i: int|
            0 <= i < retained(items, k).len() ==> items.contains(#[trigger] retained(items, k)[i])
                && keeps(k, retained(items, k)[i].1),
        forall|i: int|
            0 <= i < items.len() && keeps(k, (#[trigger] items[i]).1) ==> retained(
                items,
                k,
            ).contains(items[i]),
    decreases items.len(),
{
    if items.len() > 0 {
        let d = items.drop_last();
        assert forall|a: int, b: int| 0 <= a < b < d.len() implies (#[trigger] d[a]).0 != (
        #[trigger] d[b]).0 by {
            assert(items[a].0 != items[b].0);
        }
        lemma_retained(d, k);
        let before = retained(d, k);
        let t = retained(items, k);
        assert(items[items.len() - 1] == items.last());
        assert forall|i: int| 0 <= i < before.len() implies items.contains(#[trigger] before[i])
            && before[i].0 != items.last().0 by {
            let j = choose|j: int| 0 <= j < d.len() && d[j] == before[i];
            assert(items[j] == before[i]);
            assert(items[j].0 != items[items.len() - 1].0);
        }
        assert forall|i: int| 0 <= i < t.len() implies items.contains(#[trigger] t[i]) && keeps(
            k,
            t[i].1,
        ) by {
            if i < before.len() {
                assert(t[i] == before[i]);
            }
        }
        assert forall|a: int, b: int| 0 <= a < b < t.len() implies (#[trigger] t[a]).0 != (
        #[trigger] t[b]).0 by {
            assert(t[a] == before[a]);
            if b < before.len() {
                assert(t[b] == before[b]);
            }
        }
        assert forall|i: int|
            0 <= i < items.len() && keeps(k, (#[trigger] items[i]).1) implies t.contains(
            items[i],
        ) by {
            if i < d.len() {
                assert(d[i] == items[i]);
                let j = choose|j: int| 0 <= j < before.len() && before[j] == d[i];
                assert(t[j] == items[i]);
            } else {
                assert(t[t.len() - 1] == items[i]);
            }
        }
    }
}

// ---------------------------------------------------------------------------
// Events
// ---------------------------------------------------------------------------

pub open spec fn added(q: QueueV, item: ItemV) -> (QueueV, bool) {
    (
        QueueV { items: t_put(q.items, item.id, item), ignored: q.ignored },
        t_get(q.items, item.id) is None,
    )
}

pub open spec fn removed(q: QueueV, id: Seq<char>) -> (QueueV, bool) {
    (
        QueueV { items: t_del(q.items, id), ignored: q.ignored },
        t_get(q.items, id) is Some,
    )
}

pub open spec fn narrowed(q: QueueV, k: KeepV) -> (QueueV, bool) {
    (
        QueueV { items: retained(q.items, k), ignored: q.ignored },
        retained(q.items, k).len() != q.items.len(),
    )
}

pub open spec fn with_ignored(q: QueueV, id: Seq<char>) -> QueueV {
    QueueV {
        items: q.items,
        ignored: if q.ignored.contains(id) {
            q.ignored
        } else {
            q.ignored.push(id)
        },
    }
}

pub open spec fn new_item(
    id: Seq<char>,
    kind: AttentionKind,
    branch: Option<Seq<char>>,
    session_id: Option<Seq<char>>,
    message: Seq<char>,
    now: i128,
) -> ItemV {
    ItemV { id, kind, target: target_of(kind), branch, session_id, message, created_at: now }
}

/// The kind of an announcement. Line questions announce completion this way; `source` also
/// carries other one-off announcements that need a different kind than that default.
pub open spec fn announced_kind(source: Seq<char>) -> AttentionKind {
    if source == "pr_review_ready"@ {
        AttentionKind::PrReviewReady
    } else if source == "red_team_ready"@ {
        AttentionKind::RedTeamReady
    } else {
        AttentionKind::LineQuestion
    }
}

/// The id of an announcement; one that is about nothing in particular has the time, in
/// milliseconds.
pub open spec fn announced_id(
    source: Seq<char>,
    branch: Option<Seq<char>>,
    session_id: Option<Seq<char>>,
    now: i128,
) -> Seq<char> {
    source + ":"@ + (match (session_id, branch) {
        (Some(s), _) => s,
        (None, Some(b)) => b,
        (None, None) => signed_decimal(now as int / 1_000_000),
    })
}

/// The item that an event asks for, if it does.
pub open spec fn item_for(e: Event, now: i128) -> Option<ItemV> {
    match e {
        Event::SessionPermissionRequest { session_id, request_id, tool, title, .. } => Some(
            new_item(
                "permission:"@ + request_id@,
                AttentionKind::PermissionRequest,
                None,
                Some(session_id@),
                match title {
                    Some(t) => t@,
                    None => tool@ + " needs permission"@,
                },
                now,
            ),
        ),
        Event::SessionUserDialog { session_id, request_id, .. } => Some(
            new_item(
                "dialog:"@ + request_id@,
                AttentionKind::Question,
                None,
                Some(session_id@),
                "The agent is waiting for an answer"@,
                now,
            ),
        ),
        Event::GatePending { gate_id, session_id, branch, kind, .. } => Some(
            new_item(
                "gate:"@ + gate_id@,
                AttentionKind::Gate,
                Some(branch@),
                Some(session_id@),
                "Approval required: "@ + kind@,
                now,
            ),
        ),
        Event::SessionStatusChanged { session_id, branch, status } => if status
            == SessionStatus::Failed {
            Some(
                new_item(
                    "failed:"@ + session_id@,
                    AttentionKind::SessionFailed,
                    Some(branch@),
                    Some(session_id@),
                    "Session failed"@,
                    now,
                ),
            )
        } else {
            None
        },
        Event::AttentionRequired { source, branch, session_id, message } => Some(
            new_item(
                announced_id(source@, opt_view(branch), opt_view(session_id), now),
                announced_kind(source@),
                opt_view(branch),
                opt_view(session_id),
                message@,
                now,
            ),
        ),
        _ => None,
    }
}

/// The queue after an event, and whether it changed.
pub open spec fn attended(q: QueueV, e: Event, now: i128) -> (QueueV, bool) {
    match item_for(e, now) {
        Some(item) => match item.session_id {
            Some(s) => if q.ignored.contains(s) {
                (q, false)
            } else {
                added(q, item)
            },
            None => added(q, item),
        },
        None => match e {
            Event::EscalationStarted { escalated_session_id, .. } => removed(
                with_ignored(q, escalated_session_id@),
                "failed:"@ + escalated_session_id@,
            ),
            Event::SessionUserDialogResolved { request_id, .. } => removed(
                q,
                "dialog:"@ + request_id@,
            ),
            Event::GateResolved { gate_id, .. } => removed(q, "gate:"@ + gate_id@),
            // A session that got going again has no outstanding permission prompt.
            Event::SessionStatusChanged { session_id, status, .. } => if status
                == SessionStatus::Streaming {
                narrowed(q, KeepV::NotPermissionsOf(session_id@))
            } else {
                (q, false)
            },
            _ => (q, false),
        },
    }
}

/// What announces a change.
pub open spec fn update_for(q: QueueV, changed: bool) -> Option<EventV> {
    if changed {
        Some(EventV::AttentionUpdated { count: q.items.len() })
    } else {
        None
    }
}

pub open spec fn opt_event_view(e: Option<Event>) -> Option<EventV> {
    match e {
        Some(e) => Some(e@),
        None => None,
    }
}

enum Keep<'a> {
    Gates,
    NotOf(&'a str),
    NotPermissionsOf(&'a str),
}

impl<'a> Keep<'a> {
    spec fn rule(self) -> KeepV {
        match self {
            Keep::Gates => KeepV::Gates,
            Keep::NotOf(id) => KeepV::NotOf(id@),
            Keep::NotPermissionsOf(id) => KeepV::NotPermissionsOf(id@),
        }
    }

    fn keep(&self, item: &AttentionItem) -> (b: bool)
        ensures
            b == keeps(self.rule(), item@),
    {
        match self {
            Keep::Gates => item.kind == AttentionKind::Gate,
            Keep::NotOf(id) => !is_of(item, id),
            Keep::NotPermissionsOf(id) => !(item.kind == AttentionKind::PermissionRequest
                && is_of(item, id)),
        }
    }
}

fn is_of(item: &AttentionItem, session_id: &str) -> (b: bool)
    ensures
        b == (item@.session_id == Some(session_id@)),
{
    match &item.session_id {
        Some(s) => same_text(s.as_str(), session_id),
        None => false,
    }
}

fn copy_item(i: &AttentionItem) -> (r: AttentionItem)
    ensures
        r@ == i@,
{
    AttentionItem {
        id: text_of(i.id.as_str()),
        kind: i.kind,
        target: i.target,
        branch: opt_text(&i.branch),
        session_id: opt_text(&i.session_id),
        message: text_of(i.message.as_str()),
        created_at: i.created_at,
    }
}

fn make_item(
    id: String,
    kind: AttentionKind,
    branch: Option<String>,
    session_id: Option<String>,
    message: String,
    now: i128,
) -> (r: AttentionItem)
    ensures
        r@ == new_item(id@, kind, opt_view(branch), opt_view(session_id), message@, now),
{
    AttentionItem { id, kind, target: kind.target(), branch, session_id, message, created_at: now }
}

fn item_from(event: &Event, now: i128) -> (r: Option<AttentionItem>)
    ensures
        match r {
            Some(i) => item_for(*event, now) == Some(i@),
            None => item_for(*event, now) is None,
        },
{
    match event {
        Event::SessionPermissionRequest { session_id, request_id, tool, title, .. } => {
            let message: String = match title {
                Some(t) => text_of(t.as_str()),
                None => text_of(tool.as_str()).concat(" needs permission"),
            };
            Some(
                make_item(
                    text_of("permission:").concat(request_id.as_str()),
                    AttentionKind::PermissionRequest,
                    None,
                    Some(text_of(session_id.as_str())),
                    message,
                    now,
                ),
            )
        },
        Event::SessionUserDialog { session_id, request_id, .. } => Some(
            make_item(
                text_of("dialog:").concat(request_id.as_str()),
                AttentionKind::Question,
                None,
                Some(text_of(session_id.as_str())),
                text_of("The agent is waiting for an answer"),
                now,
            ),
        ),
        Event::GatePending { gate_id, session_id, branch, kind, .. } => Some(
            make_item(
                text_of("gate:").concat(gate_id.as_str()),
                AttentionKind::Gate,
                Some(text_of(branch.as_str())),
                Some(text_of(session_id.as_str())),
                text_of("Approval required: ").concat(kind.as_str()),
                now,
            ),
        ),
        Event::SessionStatusChanged { session_id, branch, status } => {
            if *status == SessionStatus::Failed {
                Some(
                    make_item(
                        text_of("failed:").concat(session_id.as_str()),
                        AttentionKind::SessionFailed,
                        Some(text_of(branch.as_str())),
                        Some(text_of(session_id.as_str())),
                        text_of("Session failed"),
                        now,
                    ),
                )
            } else {
                None
            }
        },
        Event::AttentionRequired { source, branch, session_id, message } => {
            let kind: AttentionKind = if same_text(source.as_str(), "pr_review_ready") {
                AttentionKind::PrReviewReady
            } else if same_text(source.as_str(), "red_team_ready") {
                AttentionKind::RedTeamReady
            } else {
                AttentionKind::LineQuestion
            };
            let about: String = match session_id {
                Some(s) => text_of(s.as_str()),
                None => match branch {
                    Some(b) => text_of(b.as_str()),
                    None => signed_text(millis(now)),
                },
            };
            Some(
                make_item(
                    text_of(source.as_str()).concat(":").concat(about.as_str()),
                    kind,
                    opt_text(branch),
                    opt_text(session_id),
                    text_of(message.as_str()),
                    now,
                ),
            )
        },
        _ => None,
    }
}

impl AttentionManager {
    pub open spec fn wf(self) -> bool {
        self.items.wf()
    }

    pub fn new() -> (m: Self)
        ensures
            m.wf(),
            m@ == (QueueV { items: seq![], ignored: seq![] }),
    {
        let m: AttentionManager = AttentionManager { items: Table::new(), ignored: Vec::new() };
        assert(m@ =~= (QueueV { items: seq![], ignored: seq![] }));
        m
    }

    /// Never queue anything for this session (used for escalation sessions).
    pub fn ignore_session(&mut self, session_id: &str)
        requires
            old(self).wf(),
        ensures
            final(self).wf(),
            final(self)@ == with_ignored(old(self)@, session_id@),
    {
        if !has_text(&self.ignored, session_id) {
            let ghost before = views(self.ignored@);
            self.ignored.push(text_of(session_id));
            assert(views(self.ignored@) =~= before.push(session_id@));
        }
    }

    /// Queue contents, most urgent first, newest first within a priority; of one time, the
    /// one that came in later first.
    pub fn list(&self) -> (r: Vec<AttentionItem>)
        ensures
            item_views(r@) == sorted::<AttentionItem>(latest_first(self@.items)),
    {
        let ghost all = latest_first(self@.items);
        let n: usize = self.items.entries.len();
        let mut r: Vec<AttentionItem> = Vec::new();
        let mut i: usize = 0;
        assert(item_views(r@) =~= all.take(0));
        while i < n
            invariant
                i <= n,
                n == self.items.entries@.len(),
                all == latest_first(self@.items),
                all.len() == n,
                item_views(r@) == all.take(i as int),
            decreases n - i,
        {
            let ghost done = item_views(r@);
            assert(all[i as int] == self.items.entries@[n - 1 - i].value@);
            r.push(copy_item(&self.items.entries[n - 1 - i].value));
            assert(item_views(r@) =~= done.push(all[i as int]));
            assert(all.take(i + 1) =~= done.push(all[i as int]));
            i += 1;
        }
        assert(all.take(i as int) =~= all);
        sort_ranked(r)
    }

    fn updated(&self, changed: bool) -> (e: Option<Event>)
        ensures
            opt_event_view(e) == update_for(self@, changed),
    {
        if changed {
            Some(Event::AttentionUpdated { count: self.items.len() })
        } else {
            None
        }
    }

    fn retain(&mut self, keep: Keep) -> (changed: bool)
        requires
            old(self).wf(),
        ensures
            final(self).wf(),
            (final(self)@, changed) == narrowed(old(self)@, keep.rule()),
    {
        let ghost all = self@.items;
        let ghost k = keep.rule();
        let n: usize = self.items.len();
        let mut rest: Table<AttentionItem> = Table::new();
        std::mem::swap(&mut self.items, &mut rest);
        let mut i: usize = 0;
        assert(self.items@ =~= retained(all.take(0), k));
        proof {
            lemma_retained(all, k);
        }
        while i < n
            invariant
                i <= n,
                n == all.len(),
                k == keep.rule(),
                rest.entries@.len() == n - i,
                rest@ == all.skip(i as int),
                self.items@ == retained(all.take(i as int), k),
                self.ignored == old(self).ignored,
            decreases n - i,
        {
            assert(all.take(i + 1).drop_last() =~= all.take(i as int));
            assert(rest@[0] == all[i as int]);
            let ghost left = rest@;
            let e: Entry<AttentionItem> = rest.entries.remove(0);
            assert(rest@ =~= left.skip(1));
            assert(left.skip(1) =~= all.skip(i + 1));
            assert((e.key@, e.value@) == all[i as int]);
            if keep.keep(&e.value) {
                let ghost done = self.items@;
                let ghost pair = (e.key@, e.value@);
                self.items.entries.push(e);
                assert(self.items@ =~= done.push(pair));
            }
            i += 1;
        }
        assert(all.take(i as int) =~= all);
        self.items.len() != n
    }

    /// Drop one item (the user handled or acknowledged it).
    pub fn dismiss(&mut self, id: &str) -> (e: Option<Event>)
        requires
            old(self).wf(),
        ensures
            final(self).wf(),
            final(self)@ == removed(old(self)@, id@).0,
            opt_event_view(e) == update_for(final(self)@, removed(old(self)@, id@).1),
    {
        let changed: bool = self.items.remove(id).is_some();
        self.updated(changed)
    }

    /// Drop everything except gates in one go (stale failures pile up after a restart).
    /// Gates survive: they are questions, not notifications — each blocks a command until
    /// answered in its dialog. Says how many went.
    pub fn dismiss_all(&mut self) -> (r: (usize, Option<Event>))
        requires
            old(self).wf(),
        ensures
            final(self).wf(),
            final(self)@ == narrowed(old(self)@, KeepV::Gates).0,
            r.0 == old(self)@.items.len() - final(self)@.items.len(),
            opt_event_view(r.1) == update_for(final(self)@, r.0 > 0),
    {
        let before: usize = self.items.len();
        proof {
            lemma_retained(self@.items, KeepV::Gates);
        }
        let changed: bool = self.retain(Keep::Gates);
        let gone: usize = before - self.items.len();
        (gone, self.updated(changed))
    }

    /// Drop every item of a session (its chat was closed, or it was deleted).
    pub fn dismiss_session(&mut self, session_id: &str) -> (e: Option<Event>)
        requires
            old(self).wf(),
        ensures
            final(self).wf(),
            final(self)@ == narrowed(old(self)@, KeepV::NotOf(session_id@)).0,
            opt_event_view(e) == update_for(
                final(self)@,
                narrowed(old(self)@, KeepV::NotOf(session_id@)).1,
            ),
    {
        let changed: bool = self.retain(Keep::NotOf(session_id));
        self.updated(changed)
    }

    /// Keep the queue in sync with an event of the bus; what comes back announces a change.
    pub fn handle(&mut self, event: &Event, now: i128) -> (e: Option<Event>)
        requires
            old(self).wf(),
        ensures
            final(self).wf(),
            final(self)@ == attended(old(self)@, *event, now).0,
            opt_event_view(e) == update_for(
                final(self)@,
                attended(old(self)@, *event, now).1,
            ),
    {
        match item_from(event, now) {
            Some(item) => {
                let ignored: bool = match &item.session_id {
                    Some(s) => has_text(&self.ignored, s.as_str()),
                    None => false,
                };
                if ignored {
                    return None;
                }
                // Re-adding the same id refreshes the message but keeps one entry.
                let fresh: bool = self.items.get(item.id.as_str()).is_none();
                let id: String = text_of(item.id.as_str());
                self.items.insert(id.as_str(), item);
                self.updated(fresh)
            },
            None => match event {
                // Escalation sessions are bookkeeping between agents: the user never waits
                // on one, so anything it produces (including a failure) stays out of the
                // queue.
                Event::EscalationStarted { escalated_session_id, .. } => {
                    self.ignore_session(escalated_session_id.as_str());
                    self.dismiss(text_of("failed:").concat(escalated_session_id.as_str()).as_str())
                },
                Event::SessionUserDialogResolved { request_id, .. } => self.dismiss(
                    text_of("dialog:").concat(request_id.as_str()).as_str(),
                ),
                Event::GateResolved { gate_id, .. } => self.dismiss(
                    text_of("gate:").concat(gate_id.as_str()).as_str(),
                ),
                Event::SessionStatusChanged { session_id, status, .. } => {
                    if *status == SessionStatus::Streaming {
                        let changed: bool = self.retain(
                            Keep::NotPermissionsOf(session_id.as_str()),
                        );
                        self.updated(changed)
                    } else {
                        None
                    }
                },
                _ => None,
            },
        }
    }
}

pub open spec fn item_list(items: Seq<(Seq<char>, ItemV)>) -> Seq<ItemV> {
    items.map_values(|p: (Seq<char>, ItemV)| p.1)
}

// ---------------------------------------------------------------------------
// Laws
// ---------------------------------------------------------------------------

/// Whether an agent cannot go on before the user has answered.
pub open spec fn blocks_an_agent(k: AttentionKind) -> bool {
    match k {
        AttentionKind::Gate | AttentionKind::Question | AttentionKind::PermissionRequest => true,
        _ => false,
    }
}

/// What blocks an agent outranks everything that merely finished.
pub proof fn what_blocks_an_agent_comes_first(k: AttentionKind, o: AttentionKind)
    requires
        blocks_an_agent(k),
        !blocks_an_agent(o),
    ensures
        priority_of(k) > priority_of(o),
{
}

/// The items, from the one that came in last to the first.
pub open spec fn latest_first(items: Seq<(Seq<char>, ItemV)>) -> Seq<ItemV> {
    item_list(items).reverse()
}

/// Whether an item has this priority and this time.
pub open spec fn of_one_rank(priority: u8, at: i128) -> spec_fn(ItemV) -> bool {
    |item: ItemV| priority_of(item.kind) == priority && item.created_at == at
}

/// The queue is listed from the most urgent to the least, newest first within a priority,
/// and holds every item; what has the same priority and time is listed from the one that came
/// in last to the first.
pub proof fn the_list_is_by_urgency(items: Seq<(Seq<char>, ItemV)>, priority: u8, at: i128)
    ensures
        is_sorted::<AttentionItem>(sorted::<AttentionItem>(latest_first(items))),
        sorted::<AttentionItem>(latest_first(items)).to_multiset() == item_list(
            items,
        ).to_multiset(),
        sorted::<AttentionItem>(latest_first(items)).filter(of_one_rank(priority, at))
            == latest_first(items).filter(of_one_rank(priority, at)),
{
    assert(is_ranking::<AttentionItem>());
    sorting_keeps_the_items_and_orders_them::<AttentionItem>(latest_first(items));
    items_of_one_rank_keep_their_order::<AttentionItem>(
        latest_first(items),
        of_one_rank(priority, at),
    );
    lemma_reversed(item_list(items));
}

proof fn lemma_reversed(s: Seq<ItemV>)
    ensures
        s.reverse().to_multiset() == s.to_multiset(),
    decreases s.len(),
{
    broadcast use vstd::seq_lib::group_to_multiset_ensures;

    if s.len() > 0 {
        let d = s.drop_last();
        lemma_reversed(d);
        assert(d.push(s.last()) =~= s);
        assert(s.reverse() =~= seq![s.last()] + d.reverse());
        vstd::seq_lib::lemma_multiset_commutative(seq![s.last()], d.reverse());
        assert(seq![s.last()] =~= Seq::<ItemV>::empty().push(s.last()));
        assert(s.reverse().to_multiset() =~= s.to_multiset());
    } else {
        assert(s.reverse() =~= s);
    }
}

/// Clearing the queue leaves the gates, all of them and nothing else, and clearing again
/// changes nothing.
pub proof fn gates_survive_a_clearing(q: QueueV, id: Seq<char>, item: ItemV)
    requires
        t_unique(q.items),
    ensures
        narrowed(q, KeepV::Gates).0.items.contains((id, item)) <==> q.items.contains((id, item))
            && item.kind == AttentionKind::Gate,
        !narrowed(narrowed(q, KeepV::Gates).0, KeepV::Gates).1,
{
    lemma_retained(q.items, KeepV::Gates);
    let r = retained(q.items, KeepV::Gates);
    if r.contains((id, item)) {
        let i = choose|i: int| 0 <= i < r.len() && r[i] == (id, item);
        assert(keeps(KeepV::Gates, r[i].1));
    }
    if q.items.contains((id, item)) && item.kind == AttentionKind::Gate {
        let i = choose|i: int| 0 <= i < q.items.len() && q.items[i] == (id, item);
        assert(r.contains(q.items[i]));
    }
    lemma_all_kept(r, KeepV::Gates);
}

proof fn lemma_all_kept(items: Seq<(Seq<char>, ItemV)>, k: KeepV)
    requires
        forall|i: int| 0 <= i < items.len() ==> keeps(k, (#[trigger] items[i]).1),
    ensures
        retained(items, k) == items,
    decreases items.len(),
{
    if items.len() > 0 {
        let d = items.drop_last();
        assert forall|i: int| 0 <= i < d.len() implies keeps(k, (#[trigger] d[i]).1) by {
            assert(d[i] == items[i]);
        }
        lemma_all_kept(d, k);
        assert(keeps(k, items[items.len() - 1].1));
        assert(d.push(items.last()) =~= items);
    } else {
        assert(items =~= seq![]);
    }
}

/// Nothing is ever queued for an ignored session.
pub proof fn ignored_sessions_are_never_queued(
    q: QueueV,
    e: Event,
    now: i128,
    session_id: Seq<char>,
    id: Seq<char>,
)
    requires
        t_unique(q.items),
        q.ignored.contains(session_id),
    ensures
        ({
            let after = attended(q, e, now).0;
            &&& after.ignored.contains(session_id)
            &&& (t_get(after.items, id) matches Some(item) && item.session_id == Some(session_id))
                ==> t_get(after.items, id) == t_get(q.items, id)
        }),
{
    let after = attended(q, e, now).0;
    let k = choose|k: int| 0 <= k < q.ignored.len() && q.ignored[k] == session_id;
    assert(after.ignored[k] == session_id);
    match item_for(e, now) {
        Some(item) => {
            t_get_put(q.items, item.id, item, id);
        },
        None => match e {
            Event::EscalationStarted { escalated_session_id, .. } => {
                t_get_del(q.items, "failed:"@ + escalated_session_id@, id);
            },
            Event::SessionUserDialogResolved { request_id, .. } => {
                t_get_del(q.items, "dialog:"@ + request_id@, id);
            },
            Event::GateResolved { gate_id, .. } => {
                t_get_del(q.items, "gate:"@ + gate_id@, id);
            },
            Event::SessionStatusChanged { session_id: s, status, .. } => {
                if status == SessionStatus::Streaming {
                    lemma_retained_get(q.items, KeepV::NotPermissionsOf(s@), id);
                }
            },
            _ => {},
        },
    }
}

proof fn lemma_retained_get(items: Seq<(Seq<char>, ItemV)>, k: KeepV, id: Seq<char>)
    requires
        t_unique(items),
    ensures
        t_get(retained(items, k), id) is Some ==> t_get(retained(items, k), id) == t_get(items, id),
{
    let r = retained(items, k);
    lemma_retained(items, k);
    t_get_has(r, id);
    if t_get(r, id) is Some {
        let i = choose|i: int| 0 <= i < r.len() && (#[trigger] r[i]).0 == id;
        t_get_at(r, i);
        let j = choose|j: int| 0 <= j < items.len() && items[j] == r[i];
        t_get_at(items, j);
    }
}

/// A repeated event does not pile up entries: the second time the queue keeps its length.
/// (An announcement about no session and no branch is told apart by its time alone.)
pub proof fn repeated_events_keep_one_entry(q: QueueV, e: Event, now: i128, later: i128)
    requires
        t_unique(q.items),
        item_for(e, now) is Some,
        !(e matches Event::AttentionRequired { branch, session_id, .. } && branch is None
            && session_id is None),
    ensures
        attended(attended(q, e, now).0, e, later).0.items.len() == attended(
            q,
            e,
            now,
        ).0.items.len(),
{
    match item_for(e, now) {
        Some(item) => {
            t_get_put(q.items, item.id, item, item.id);
            t_get_has(t_put(q.items, item.id, item), item.id);
        },
        None => {},
    }
}

/// An answered dialog and a resolved gate leave the queue.
pub proof fn resolving_the_source_clears_the_item(q: QueueV, id: Seq<char>)
    ensures
        t_get(removed(q, id).0.items, id) is None,
{
    t_get_del(q.items, id, id);
}

/// What stays is what the rule keeps, in its order.
proof fn lemma_retained_is_filter(
    items: Seq<(Seq<char>, ItemV)>,
    k: KeepV,
    f: spec_fn((Seq<char>, ItemV)) -> bool,
)
    requires
        forall|p: (Seq<char>, ItemV)| #[trigger] f(p) == keeps(k, p.1),
    ensures
        retained(items, k) == items.filter(f),
    decreases items.len(),
{
    reveal(Seq::filter);
    if items.len() > 0 {
        lemma_retained_is_filter(items.drop_last(), k, f);
        assert(f(items.last()) == keeps(k, items.last().1));
    }
}

/// A session that got going again takes its own permission prompts out of the queue and
/// nothing else: every other item stays, in its order, the prompts of other sessions
/// included.
pub proof fn only_the_prompts_of_a_streaming_session_go(
    q: QueueV,
    session_id: String,
    branch: String,
    now: i128,
)
    ensures
        ({
            let e = Event::SessionStatusChanged {
                session_id,
                branch,
                status: SessionStatus::Streaming,
            };
            attended(q, e, now).0 == (QueueV {
                items: q.items.filter(
                    |p: (Seq<char>, ItemV)|
                        p.1.kind != AttentionKind::PermissionRequest || p.1.session_id != Some(
                            session_id@,
                        ),
                ),
                ignored: q.ignored,
            })
        }),
{
    lemma_retained_is_filter(
        q.items,
        KeepV::NotPermissionsOf(session_id@),
        |p: (Seq<char>, ItemV)|
            p.1.kind != AttentionKind::PermissionRequest || p.1.session_id != Some(session_id@),
    );
}

/// A closed session takes all its items out of the queue and nothing else.
pub proof fn only_the_items_of_a_closed_session_go(q: QueueV, session_id: Seq<char>)
    ensures
        narrowed(q, KeepV::NotOf(session_id)).0 == (QueueV {
            items: q.items.filter(|p: (Seq<char>, ItemV)| p.1.session_id != Some(session_id)),
            ignored: q.ignored,
        }),
{
    lemma_retained_is_filter(
        q.items,
        KeepV::NotOf(session_id),
        |p: (Seq<char>, ItemV)| p.1.session_id != Some(session_id),
    );
}

/// Clearing the queue keeps the gates in their order, and the sessions to ignore.
pub proof fn only_gates_stay_in_a_cleared_queue(q: QueueV)
    ensures
        narrowed(q, KeepV::Gates).0 == (QueueV {
            items: q.items.filter(|p: (Seq<char>, ItemV)| p.1.kind == AttentionKind::Gate),
            ignored: q.ignored,
        }),
{
    lemma_retained_is_filter(
        q.items,
        KeepV::Gates,
        |p: (Seq<char>, ItemV)| p.1.kind == AttentionKind::Gate,
    );
}

/// Whether a queue holds, under `id`, an item of this kind for this session and branch that
/// came in at `now`, and is otherwise the queue that it was.
pub open spec fn gained(
    before: QueueV,
    after: QueueV,
    id: Seq<char>,
    kind: AttentionKind,
    session_id: Option<Seq<char>>,
    branch: Option<Seq<char>>,
    message: Seq<char>,
    now: i128,
) -> bool {
    &&& after.ignored == before.ignored
    &&& t_get(after.items, id) matches Some(item) && item.id == id && item.kind == kind
        && item.session_id == session_id && item.branch == branch && item.message == message
        && item.created_at == now && item.target == (match kind {
        AttentionKind::Gate => AttentionTarget::Gate,
        AttentionKind::PermissionRequest => AttentionTarget::Chat,
        AttentionKind::Question => AttentionTarget::Chat,
        AttentionKind::SessionFailed => AttentionTarget::Chat,
        AttentionKind::LineQuestion => AttentionTarget::Diff,
        AttentionKind::PrReviewReady => AttentionTarget::PrReplies,
        AttentionKind::RedTeamReady => AttentionTarget::Notes,
    })
    &&& forall|o: Seq<char>| o != id ==> #[trigger] t_get(after.items, o) == t_get(before.items, o)
}

/// Whether a queue holds nothing under `id` any more, and is otherwise the queue that it was.
pub open spec fn lost(before: QueueV, after: QueueV, id: Seq<char>) -> bool {
    &&& t_get(after.items, id) is None
    &&& forall|o: Seq<char>| o != id ==> #[trigger] t_get(after.items, o) == t_get(before.items, o)
}

proof fn lemma_gained(q: QueueV, item: ItemV)
    requires
        t_unique(q.items),
        item.target == target_of(item.kind),
    ensures
        gained(
            q,
            added(q, item).0,
            item.id,
            item.kind,
            item.session_id,
            item.branch,
            item.message,
            item.created_at,
        ),
{
    let after = added(q, item).0;
    t_get_put(q.items, item.id, item, item.id);
    assert forall|o: Seq<char>| o != item.id implies #[trigger] t_get(after.items, o) == t_get(
        q.items,
        o,
    ) by {
        t_get_put(q.items, item.id, item, o);
    }
}

proof fn lemma_lost(q: QueueV, id: Seq<char>)
    ensures
        lost(q, removed(q, id).0, id),
        removed(q, id).0.ignored == q.ignored,
{
    let after = removed(q, id).0;
    t_get_del(q.items, id, id);
    assert forall|o: Seq<char>| o != id implies #[trigger] t_get(after.items, o) == t_get(
        q.items,
        o,
    ) by {
        t_get_del(q.items, id, o);
    }
}

/// A permission request, an agent's question and a pending gate each wait in the queue under
/// the name of what asks, for the session that asks; the rest of the queue stays.
pub proof fn what_an_agent_waits_for_is_queued(
    q: QueueV,
    session_id: String,
    request_id: String,
    tool: String,
    args: Json,
    title: Option<String>,
    branch: String,
    kind: String,
    params: Vec<GateParam>,
    note: Option<String>,
    now: i128,
)
    requires
        t_unique(q.items),
        !q.ignored.contains(session_id@),
    ensures
        gained(
            q,
            attended(
                q,
                Event::SessionPermissionRequest { session_id, request_id, tool, args, title },
                now,
            ).0,
            "permission:"@ + request_id@,
            AttentionKind::PermissionRequest,
            Some(session_id@),
            None,
            match title {
                Some(t) => t@,
                None => tool@ + " needs permission"@,
            },
            now,
        ),
        gained(
            q,
            attended(
                q,
                Event::SessionUserDialog {
                    session_id,
                    request_id,
                    dialog_kind: kind,
                    payload: args,
                },
                now,
            ).0,
            "dialog:"@ + request_id@,
            AttentionKind::Question,
            Some(session_id@),
            None,
            "The agent is waiting for an answer"@,
            now,
        ),
        gained(
            q,
            attended(
                q,
                Event::GatePending {
                    gate_id: request_id,
                    session_id,
                    tool,
                    kind,
                    branch,
                    params,
                    note,
                    raw_args: args,
                },
                now,
            ).0,
            "gate:"@ + request_id@,
            AttentionKind::Gate,
            Some(session_id@),
            Some(branch@),
            "Approval required: "@ + kind@,
            now,
        ),
{
    let asks = Event::SessionPermissionRequest { session_id, request_id, tool, args, title };
    let talks = Event::SessionUserDialog {
        session_id,
        request_id,
        dialog_kind: kind,
        payload: args,
    };
    let gates = Event::GatePending {
        gate_id: request_id,
        session_id,
        tool,
        kind,
        branch,
        params,
        note,
        raw_args: args,
    };
    lemma_gained(q, item_for(asks, now)->0);
    lemma_gained(q, item_for(talks, now)->0);
    lemma_gained(q, item_for(gates, now)->0);
}

/// A session that failed is queued as a failure of its branch; any other status but streaming
/// leaves the queue as it was.
pub proof fn a_failure_is_queued(
    q: QueueV,
    session_id: String,
    branch: String,
    status: SessionStatus,
    now: i128,
)
    requires
        t_unique(q.items),
        !q.ignored.contains(session_id@),
        status != SessionStatus::Streaming,
    ensures
        ({
            let after = attended(
                q,
                Event::SessionStatusChanged { session_id, branch, status },
                now,
            ).0;
            if status == SessionStatus::Failed {
                gained(
                    q,
                    after,
                    "failed:"@ + session_id@,
                    AttentionKind::SessionFailed,
                    Some(session_id@),
                    Some(branch@),
                    "Session failed"@,
                    now,
                )
            } else {
                after == q
            }
        }),
{
    let e = Event::SessionStatusChanged { session_id, branch, status };
    if status == SessionStatus::Failed {
        lemma_gained(q, item_for(e, now)->0);
    }
}

/// An announcement is queued with its own message, under its source and the session, or the
/// branch where it names no session: a review plan and a red team's report as what they are,
/// every other one as an answered line question.
pub proof fn an_announcement_is_queued(
    q: QueueV,
    source: String,
    branch: Option<String>,
    session_id: Option<String>,
    message: String,
    now: i128,
)
    requires
        t_unique(q.items),
        session_id matches Some(s) ==> !q.ignored.contains(s@),
        session_id is Some || branch is Some,
    ensures
        gained(
            q,
            attended(
                q,
                Event::AttentionRequired { source, branch, session_id, message },
                now,
            ).0,
            source@ + ":"@ + (match session_id {
                Some(s) => s@,
                None => branch->0@,
            }),
            if source@ == "pr_review_ready"@ {
                AttentionKind::PrReviewReady
            } else if source@ == "red_team_ready"@ {
                AttentionKind::RedTeamReady
            } else {
                AttentionKind::LineQuestion
            },
            opt_view(session_id),
            opt_view(branch),
            message@,
            now,
        ),
{
    let e = Event::AttentionRequired { source, branch, session_id, message };
    lemma_gained(q, item_for(e, now)->0);
}

/// What was answered leaves the queue, and nothing else does: a dialog, a gate, and the
/// failure of a session that was escalated, for which nothing is queued from then on.
pub proof fn what_was_answered_leaves_the_queue(
    q: QueueV,
    session_id: String,
    id: String,
    other: String,
    text: String,
    now: i128,
)
    ensures
        ({
            let after = attended(
                q,
                Event::SessionUserDialogResolved { session_id, request_id: id },
                now,
            ).0;
            lost(q, after, "dialog:"@ + id@) && after.ignored == q.ignored
        }),
        ({
            let after = attended(q, Event::GateResolved { gate_id: id, reason: text }, now).0;
            lost(q, after, "gate:"@ + id@) && after.ignored == q.ignored
        }),
        ({
            let after = attended(
                q,
                Event::EscalationStarted {
                    asking_session_id: session_id,
                    target_session_id: other,
                    escalated_session_id: id,
                    question: text,
                },
                now,
            ).0;
            &&& lost(q, after, "failed:"@ + id@)
            &&& after.ignored.contains(id@)
            &&& forall|s: Seq<char>|
                s != id@ ==> #[trigger] after.ignored.contains(s) == q.ignored.contains(s)
        }),
{
    lemma_lost(q, "dialog:"@ + id@);
    lemma_lost(q, "gate:"@ + id@);
    lemma_lost(with_ignored(q, id@), "failed:"@ + id@);
    let after = with_ignored(q, id@);
    if !q.ignored.contains(id@) {
        assert(after.ignored[after.ignored.len() - 1] == id@);
        assert forall|s: Seq<char>| s != id@ implies #[trigger] after.ignored.contains(s)
            == q.ignored.contains(s) by {
            if q.ignored.contains(s) {
                let i = choose|i: int| 0 <= i < q.ignored.len() && q.ignored[i] == s;
                assert(after.ignored[i] == s);
            }
            if after.ignored.contains(s) {
                let i = choose|i: int| 0 <= i < after.ignored.len() && after.ignored[i] == s;
                assert(q.ignored[i] == s);
            }
        }
    }
}

/// Every event but those that ask for the user or answer them leaves the queue as it was.
pub proof fn other_events_leave_the_queue(q: QueueV, e: Event, now: i128)
    requires
        !(e is SessionPermissionRequest),
        !(e is SessionUserDialog),
        !(e is GatePending),
        !(e is SessionStatusChanged),
        !(e is AttentionRequired),
        !(e is EscalationStarted),
        !(e is SessionUserDialogResolved),
        !(e is GateResolved),
    ensures
        attended(q, e, now) == (q, false),
{
}

/// A change is announced exactly where an entry came or went, with how many there are.
pub proof fn a_change_is_announced_with_its_count(q: QueueV, e: Event, now: i128)
    requires
        t_unique(q.items),
    ensures
        ({
            let (after, changed) = attended(q, e, now);
            update_for(after, changed) == (if after.items.len() == q.items.len() {
                None::<EventV>
            } else {
                Some(EventV::AttentionUpdated { count: after.items.len() })
            })
        }),
{
    let (after, changed) = attended(q, e, now);
    match item_for(e, now) {
        Some(item) => {
            t_get_has(q.items, item.id);
        },
        None => match e {
            Event::EscalationStarted { escalated_session_id, .. } => {
                lemma_del_len(q.items, "failed:"@ + escalated_session_id@);
            },
            Event::SessionUserDialogResolved { request_id, .. } => {
                lemma_del_len(q.items, "dialog:"@ + request_id@);
            },
            Event::GateResolved { gate_id, .. } => {
                lemma_del_len(q.items, "gate:"@ + gate_id@);
            },
            _ => {},
        },
    }
}

proof fn lemma_del_len(items: Seq<(Seq<char>, ItemV)>, id: Seq<char>)
    ensures
        t_del(items, id).len() <= items.len(),
        t_get(items, id) is Some <==> t_del(items, id).len() != items.len(),
    decreases items.len(),
{
    if items.len() > 0 {
        lemma_del_len(items.drop_last(), id);
    }
}

/// Gates and questions come first, permission requests next, then what is ready to be read,
/// then failures, and answered line questions last.
pub proof fn kinds_are_ranked()
    ensures
        priority_of(AttentionKind::Gate) == priority_of(AttentionKind::Question),
        priority_of(AttentionKind::Question) > priority_of(AttentionKind::PermissionRequest),
        priority_of(AttentionKind::PermissionRequest) > priority_of(AttentionKind::PrReviewReady),
        priority_of(AttentionKind::PrReviewReady) == priority_of(AttentionKind::RedTeamReady),
        priority_of(AttentionKind::RedTeamReady) > priority_of(AttentionKind::SessionFailed),
        priority_of(AttentionKind::SessionFailed) > priority_of(AttentionKind::LineQuestion),
{
}

/// In the list an item stands in front of another one only where it is at least as urgent
/// and, of one urgency, at least as new.
pub proof fn a_listed_item_is_no_less_urgent(items: Seq<(Seq<char>, ItemV)>, i: int, j: int)
    requires
        0 <= i < j < sorted::<AttentionItem>(latest_first(items)).len(),
    ensures
        ({
            let list = sorted::<AttentionItem>(latest_first(items));
            ||| priority_of(list[i].kind) > priority_of(list[j].kind)
            ||| priority_of(list[i].kind) == priority_of(list[j].kind) && list[i].created_at
                >= list[j].created_at
        }),
{
    the_list_is_by_urgency(items, 0, 0);
}

} // verus!
