//! Export/import bundle: the portable subset of settings, plus every prompt template, as
//! one blob a user can carry between machines or keep as a backup. Deliberately excludes
//! anything machine-specific (`repo_path`, `worktree_root`, `editor_command`, which gh
//! account is active) or secret (the Jira token) — see [`EXPORTABLE_SETTINGS`]. `import`
//! re-checks every incoming key against that same allowlist rather than trusting the file,
//! so a hand-edited or foreign bundle can never smuggle in a setting outside the exported
//! set.
use crate::attention::{SETTING_NOTIFICATION_DIGEST, SETTING_OS_NOTIFICATIONS};
use crate::checks::{SETTING_CHECK_AUTO, SETTING_CHECK_COMMAND};
use crate::config::{
    SETTING_IMPACT_INCLUDE_REFERENCES, SETTING_RED_TEAM_AUTO, SETTING_RED_TEAM_EFFORT,
    SETTING_RED_TEAM_MODEL,
};
use crate::daemon::{
    SETTING_DAEMON_ENABLED, SETTING_DAEMON_POLL_MINUTES, SETTING_DAEMON_RESEARCH_EFFORT,
    SETTING_DAEMON_RESEARCH_MODEL, SETTING_DAEMON_SKIP_LABELS, SETTING_DAEMON_USAGE_THRESHOLD,
    SETTING_DAEMON_VERIFY_EFFORT, SETTING_DAEMON_VERIFY_MODEL,
};
use crate::error::{is_invalid_data, MaestroError};
use crate::escalation::SETTING_ESCALATION_TIMEOUT;
use crate::gate::SETTING_GATE_COMMIT;
use crate::prompts::{name_error, valid_name, PromptFile, PromptManager};
use crate::questions::SETTING_LINE_QUESTION_TARGET;
use crate::session::manager::{SETTING_NOTES_FINALIZE_TIMEOUT, SETTING_SINGLE_WRITER_POLICY};
use crate::settings::{
    setting_views, settings_are_ranked, Setting, SettingV, SETTING_TELEMETRY_ENABLED,
    SETTING_TELEMETRY_RETENTION_DAYS,
};
use crate::sorting::{
    item_views, is_sorted, sort_ranked, sorted, sorting_keeps_the_items_and_orders_them,
};
use crate::table::{t_get, Table};
use crate::text::{same_text, text_of, views};
use crate::worktree::SETTING_BRANCH_TEMPLATE;
use vstd::prelude::*;
use vstd::string::*;

verus! {

/// Bumped only if the bundle shape changes in a way `import` must branch on.
pub const BUNDLE_VERSION: u32 = 1;

/// Behavior preferences worth carrying to another machine. Not local paths, not secrets,
/// not a machine's own account selection.
pub const EXPORTABLE_SETTINGS: [&'static str; 24] = [
    SETTING_TELEMETRY_ENABLED,
    SETTING_TELEMETRY_RETENTION_DAYS,
    SETTING_OS_NOTIFICATIONS,
    SETTING_NOTIFICATION_DIGEST,
    SETTING_SINGLE_WRITER_POLICY,
    SETTING_NOTES_FINALIZE_TIMEOUT,
    SETTING_GATE_COMMIT,
    SETTING_CHECK_COMMAND,
    SETTING_CHECK_AUTO,
    SETTING_LINE_QUESTION_TARGET,
    SETTING_ESCALATION_TIMEOUT,
    SETTING_BRANCH_TEMPLATE,
    SETTING_DAEMON_ENABLED,
    SETTING_DAEMON_POLL_MINUTES,
    SETTING_DAEMON_USAGE_THRESHOLD,
    SETTING_DAEMON_RESEARCH_MODEL,
    SETTING_DAEMON_RESEARCH_EFFORT,
    SETTING_DAEMON_VERIFY_MODEL,
    SETTING_DAEMON_VERIFY_EFFORT,
    SETTING_DAEMON_SKIP_LABELS,
    SETTING_RED_TEAM_MODEL,
    SETTING_RED_TEAM_EFFORT,
    SETTING_RED_TEAM_AUTO,
    SETTING_IMPACT_INCLUDE_REFERENCES,
];

#[derive(Debug)]
pub struct PromptEntry {
    pub name: String,
    pub content: String,
}

#[verifier::ext_equal]
pub struct EntryV {
    pub name: Seq<char>,
    pub content: Seq<char>,
}

impl View for PromptEntry {
    type V = EntryV;

    open spec fn view(&self) -> EntryV {
        EntryV { name: self.name@, content: self.content@ }
    }
}

pub open spec fn entry_views(s: Seq<PromptEntry>) -> Seq<EntryV> {
    s.map_values(|p: PromptEntry| p@)
}

#[derive(Debug)]
pub struct SettingsBundle {
    pub version: u32,
    /// Nanoseconds since the Unix epoch.
    pub exported_at: i128,
    /// By key.
    pub settings: Vec<Setting>,
    pub prompts: Vec<PromptEntry>,
}

/// What actually happened on import — the frontend shows this instead of a silent success,
/// since an import overwrites existing customizations.
#[derive(Debug)]
pub struct ImportSummary {
    pub settings_applied: usize,
    pub prompts_written: usize,
    /// Keys the bundle carried that this build does not (or no longer) recognize as
    /// exportable — skipped, not applied, not an error.
    pub settings_skipped: Vec<String>,
}

/// What an import writes, and what comes of it: a prompt whose name is no file name ends
/// it, after what was written before.
#[derive(Debug)]
pub struct ImportPlan {
    pub settings: Vec<Setting>,
    pub prompts: Vec<PromptEntry>,
    pub outcome: Result<ImportSummary, MaestroError>,
}

pub open spec fn exportable_keys() -> Seq<Seq<char>> {
    EXPORTABLE_SETTINGS@.map_values(|k: &'static str| k@)
}

/// Whether a setting may leave this machine, or come from another.
pub open spec fn exportable(key: Seq<char>) -> bool {
    exportable_keys().contains(key)
}

/// Whether a setting may leave this machine, or come from another.
pub fn is_exportable(key: &str) -> (b: bool)
    ensures
        b == exportable(key@),
{
    let keys: [&'static str; 24] = EXPORTABLE_SETTINGS;
    let mut i: usize = 0;
    while i < 24
        invariant
            i <= 24,
            keys@ == EXPORTABLE_SETTINGS@,
            keys@.len() == 24,
            forall|k: int| 0 <= k < i ==> #[trigger] exportable_keys()[k] != key@,
        decreases 24 - i,
    {
        assert(exportable_keys()[i as int] == keys@[i as int]@);
        if same_text(keys[i], key) {
            return true;
        }
        i += 1;
    }
    assert(exportable_keys().len() == 24);
    false
}

// ---------------------------------------------------------------------------
// Export
// ---------------------------------------------------------------------------

/// Of the settings under `keys`, those that have a value.
pub open spec fn values_of(stored: Seq<(Seq<char>, Seq<char>)>, keys: Seq<Seq<char>>) -> Seq<
    SettingV,
>
    decreases keys.len(),
{
    if keys.len() == 0 {
        seq![]
    } else {
        let before = values_of(stored, keys.drop_last());
        match t_get(stored, keys.last()) {
            Some(value) => before.push(SettingV { key: keys.last(), value }),
            None => before,
        }
    }
}

/// The settings that an export carries, by key.
pub open spec fn exported_settings(stored: Seq<(Seq<char>, Seq<char>)>) -> Seq<SettingV> {
    sorted::<Setting>(values_of(stored, exportable_keys()))
}

/// The templates the user owns: edited defaults and custom templates. Unedited defaults are
/// deliberately left out — they reinstall themselves on any machine, and carrying them would
/// pin an old bundle's defaults over a newer app's.
pub open spec fn exported_prompts(files: Seq<PromptFile>) -> Seq<EntryV>
    decreases files.len(),
{
    if files.len() == 0 {
        seq![]
    } else {
        let before = exported_prompts(files.drop_last());
        let p = files.last();
        if p.modified || !p.has_default {
            before.push(EntryV { name: p.name@, content: p.content@ })
        } else {
            before
        }
    }
}

fn owned_prompts(files: &Vec<PromptFile>) -> (r: Vec<PromptEntry>)
    ensures
        entry_views(r@) == exported_prompts(files@),
{
    let mut r: Vec<PromptEntry> = Vec::new();
    let mut i: usize = 0;
    assert(entry_views(r@) =~= exported_prompts(files@.take(0)));
    while i < files.len()
        invariant
            i <= files@.len(),
            entry_views(r@) == exported_prompts(files@.take(i as int)),
        decreases files@.len() - i,
    {
        assert(files@.take(i + 1).drop_last() =~= files@.take(i as int));
        if files[i].modified || !files[i].has_default {
            let ghost done = entry_views(r@);
            let entry: PromptEntry = PromptEntry {
                name: text_of(files[i].name.as_str()),
                content: text_of(files[i].content.as_str()),
            };
            let ghost ev = entry@;
            r.push(entry);
            assert(entry_views(r@) =~= done.push(ev));
        }
        i += 1;
    }
    assert(files@.take(i as int) =~= files@);
    r
}

/// Snapshot every exportable setting that has a value, plus the prompt templates the user
/// actually owns. `stored` are the settings, `files` the prompt templates as listed.
pub fn export(stored: &Table<String>, files: &Vec<PromptFile>, now: i128) -> (r: SettingsBundle)
    requires
        stored.wf(),
    ensures
        r.version == BUNDLE_VERSION,
        r.exported_at == now,
        setting_views(r.settings@) == exported_settings(stored@),
        entry_views(r.prompts@) == exported_prompts(files@),
{
    let keys: [&'static str; 24] = EXPORTABLE_SETTINGS;
    let ghost kv = exportable_keys();
    let mut out: Vec<Setting> = Vec::new();
    let mut i: usize = 0;
    assert(setting_views(out@) =~= values_of(stored@, kv.take(0)));
    while i < 24
        invariant
            i <= 24,
            keys@ == EXPORTABLE_SETTINGS@,
            kv == exportable_keys(),
            kv.len() == 24,
            keys@.len() == 24,
            stored.wf(),
            setting_views(out@) == values_of(stored@, kv.take(i as int)),
        decreases 24 - i,
    {
        assert(kv.take(i + 1).drop_last() =~= kv.take(i as int));
        assert(kv.take(i + 1).last() == keys@[i as int]@);
        match stored.get(keys[i]) {
            Some(value) => {
                let ghost done = setting_views(out@);
                let s: Setting = Setting { key: text_of(keys[i]), value: text_of(value.as_str()) };
                let ghost sv = s@;
                out.push(s);
                assert(setting_views(out@) =~= done.push(sv));
            },
            None => {},
        }
        i += 1;
    }
    assert(kv.take(24) =~= kv);
    assert(item_views(out@) =~= setting_views(out@));
    let settings: Vec<Setting> = sort_ranked(out);
    assert(item_views(settings@) =~= setting_views(settings@));
    SettingsBundle { version: BUNDLE_VERSION, exported_at: now, settings, prompts: owned_prompts(files) }
}

// ---------------------------------------------------------------------------
// Import
// ---------------------------------------------------------------------------

/// Of the settings of a bundle, those that are applied.
pub open spec fn applied(settings: Seq<SettingV>) -> Seq<SettingV>
    decreases settings.len(),
{
    if settings.len() == 0 {
        seq![]
    } else if exportable(settings.last().key) {
        applied(settings.drop_last()).push(settings.last())
    } else {
        applied(settings.drop_last())
    }
}

/// Of the keys of a bundle, those that are skipped.
pub open spec fn skipped(settings: Seq<SettingV>) -> Seq<Seq<char>>
    decreases settings.len(),
{
    if settings.len() == 0 {
        seq![]
    } else if exportable(settings.last().key) {
        skipped(settings.drop_last())
    } else {
        skipped(settings.drop_last()).push(settings.last().key)
    }
}

/// How many templates come before the first whose name is no file name.
pub open spec fn writable(prompts: Seq<EntryV>, i: int) -> int
    decreases prompts.len() - i,
{
    if 0 <= i < prompts.len() && valid_name(prompts[i].name) {
        writable(prompts, i + 1)
    } else {
        i
    }
}

/// Whether `r` is the outcome of importing a bundle.
pub open spec fn is_outcome(
    r: Result<ImportSummary, MaestroError>,
    settings: Seq<SettingV>,
    prompts: Seq<EntryV>,
) -> bool {
    let n = writable(prompts, 0);
    if n < prompts.len() {
        r matches Err(e) && is_invalid_data(e, name_error(prompts[n].name))
    } else {
        r matches Ok(s) && s.settings_applied == applied(settings).len() && s.prompts_written
            == prompts.len() && views(s.settings_skipped@) == skipped(settings)
    }
}

/// Apply a bundle: every setting whose key is still in the allowlist is written as-is (last
/// import wins, same as any other settings write); every prompt entry overwrites its file,
/// same as saving it by hand in the editor.
pub fn import(prompts: &PromptManager, bundle: &SettingsBundle) -> (r: ImportPlan)
    ensures
        setting_views(r.settings@) == applied(setting_views(bundle.settings@)),
        entry_views(r.prompts@) == entry_views(bundle.prompts@).take(
            writable(entry_views(bundle.prompts@), 0),
        ),
        is_outcome(r.outcome, setting_views(bundle.settings@), entry_views(bundle.prompts@)),
{
    let ghost sv = setting_views(bundle.settings@);
    let ghost pv = entry_views(bundle.prompts@);
    let mut settings: Vec<Setting> = Vec::new();
    let mut left: Vec<String> = Vec::new();
    let mut i: usize = 0;
    assert(setting_views(settings@) =~= applied(sv.take(0)));
    assert(views(left@) =~= skipped(sv.take(0)));
    while i < bundle.settings.len()
        invariant
            i <= bundle.settings@.len(),
            sv == setting_views(bundle.settings@),
            setting_views(settings@) == applied(sv.take(i as int)),
            views(left@) == skipped(sv.take(i as int)),
        decreases bundle.settings@.len() - i,
    {
        assert(sv.take(i + 1).drop_last() =~= sv.take(i as int));
        assert(sv.take(i + 1).last() == bundle.settings@[i as int]@);
        let key: &str = bundle.settings[i].key.as_str();
        if is_exportable(key) {
            let ghost done = setting_views(settings@);
            let s: Setting = Setting {
                key: text_of(key),
                value: text_of(bundle.settings[i].value.as_str()),
            };
            let ghost one = s@;
            settings.push(s);
            assert(setting_views(settings@) =~= done.push(one));
        } else {
            let ghost done = views(left@);
            let text: String = text_of(key);
            let ghost one = text@;
            left.push(text);
            assert(views(left@) =~= done.push(one));
        }
        i += 1;
    }
    assert(sv.take(i as int) =~= sv);
    let mut written: Vec<PromptEntry> = Vec::new();
    let mut j: usize = 0;
    assert(entry_views(written@) =~= pv.take(0));
    while j < bundle.prompts.len()
        invariant
            j <= bundle.prompts@.len(),
            sv == setting_views(bundle.settings@),
            pv == entry_views(bundle.prompts@),
            setting_views(settings@) == applied(sv),
            entry_views(written@) == pv.take(j as int),
            writable(pv, 0) == writable(pv, j as int),
        decreases bundle.prompts@.len() - j,
    {
        assert(pv[j as int] == bundle.prompts@[j as int]@);
        match prompts.path_of(bundle.prompts[j].name.as_str()) {
            Ok(_) => {
                let ghost done = entry_views(written@);
                let entry: PromptEntry = PromptEntry {
                    name: text_of(bundle.prompts[j].name.as_str()),
                    content: text_of(bundle.prompts[j].content.as_str()),
                };
                let ghost one = entry@;
                written.push(entry);
                assert(entry_views(written@) =~= done.push(one));
                assert(pv.take(j + 1) =~= pv.take(j as int).push(one));
            },
            Err(e) => {
                return ImportPlan { settings, prompts: written, outcome: Err(e) };
            },
        }
        j += 1;
    }
    let summary: ImportSummary = ImportSummary {
        settings_applied: settings.len(),
        prompts_written: written.len(),
        settings_skipped: left,
    };
    assert(settings@.len() == setting_views(settings@).len());
    assert(written@.len() == entry_views(written@).len());
    ImportPlan { settings, prompts: written, outcome: Ok(summary) }
}

/// A bundle's text could not be read — a hand-edited or foreign file is a normal,
/// reportable failure.
pub fn not_a_bundle(reason: &str) -> (e: MaestroError)
    ensures
        is_invalid_data(e, "not a valid settings bundle: "@ + reason@),
{
    MaestroError::InvalidData { message: text_of("not a valid settings bundle: ").concat(reason) }
}

// ---------------------------------------------------------------------------
// Laws
// ---------------------------------------------------------------------------

/// An import never writes a setting outside the allowlist, whatever the bundle holds.
pub proof fn an_import_stays_within_the_allowlist(settings: Seq<SettingV>)
    ensures
        forall|i: int|
            0 <= i < applied(settings).len() ==> exportable(
                (#[trigger] applied(settings)[i]).key,
            ),
        applied(settings).len() + skipped(settings).len() == settings.len(),
    decreases settings.len(),
{
    if settings.len() > 0 {
        let before = applied(settings.drop_last());
        let all = applied(settings);
        an_import_stays_within_the_allowlist(settings.drop_last());
        assert forall|i: int| 0 <= i < all.len() implies exportable((#[trigger] all[i]).key) by {
            if i < before.len() {
                assert(all[i] == before[i]);
            }
        }
    }
}

proof fn lemma_values(stored: Seq<(Seq<char>, Seq<char>)>, keys: Seq<Seq<char>>)
    ensures
        forall|i: int|
            0 <= i < values_of(stored, keys).len() ==> keys.contains(
                (#[trigger] values_of(stored, keys)[i]).key,
            ) && t_get(stored, values_of(stored, keys)[i].key) == Some(
                values_of(stored, keys)[i].value,
            ),
        forall|k: Seq<char>|
            keys.contains(k) && t_get(stored, k) is Some ==> values_of(stored, keys).contains(
                #[trigger] carried(stored, k),
            ),
    decreases keys.len(),
{
    if keys.len() > 0 {
        let init = keys.drop_last();
        let before = values_of(stored, init);
        let all = values_of(stored, keys);
        lemma_values(stored, init);
        assert forall|i: int| 0 <= i < all.len() implies keys.contains((#[trigger] all[i]).key)
            && t_get(stored, all[i].key) == Some(all[i].value) by {
            if i < before.len() {
                assert(all[i] == before[i]);
                let j = choose|j: int| 0 <= j < init.len() && init[j] == before[i].key;
                assert(keys[j] == before[i].key);
            } else {
                assert(keys[keys.len() - 1] == all[i].key);
            }
        }
        assert forall|k: Seq<char>|
            keys.contains(k) && t_get(stored, k) is Some implies all.contains(
            #[trigger] carried(stored, k),
        ) by {
            let c = carried(stored, k);
            let j = choose|j: int| 0 <= j < keys.len() && keys[j] == k;
            if j < init.len() {
                assert(init[j] == k);
                assert(before.contains(c));
                let m = choose|m: int| 0 <= m < before.len() && before[m] == c;
                assert(all[m] == c);
            } else {
                assert(all[all.len() - 1] == c);
            }
        }
    }
}

/// A stored setting as a bundle carries it.
pub open spec fn carried(stored: Seq<(Seq<char>, Seq<char>)>, key: Seq<char>) -> SettingV {
    SettingV {
        key,
        value: match t_get(stored, key) {
            Some(v) => v,
            None => seq![],
        },
    }
}

proof fn lemma_all_applied(settings: Seq<SettingV>)
    requires
        forall|i: int| 0 <= i < settings.len() ==> exportable((#[trigger] settings[i]).key),
    ensures
        applied(settings) == settings,
        skipped(settings) == Seq::<Seq<char>>::empty(),
    decreases settings.len(),
{
    if settings.len() > 0 {
        let init = settings.drop_last();
        assert forall|i: int| 0 <= i < init.len() implies exportable((#[trigger] init[i]).key) by {
            assert(init[i] == settings[i]);
        }
        lemma_all_applied(init);
        assert(exportable(settings[settings.len() - 1].key));
        assert(init.push(settings.last()) =~= settings);
    }
}

/// An export carries every exportable setting that has a value, as it is stored, and nothing
/// else — no secret, no local path; and an import of it applies all of it and skips nothing.
pub proof fn an_export_imports_whole(stored: Seq<(Seq<char>, Seq<char>)>)
    ensures
        applied(exported_settings(stored)) == exported_settings(stored),
        skipped(exported_settings(stored)) == Seq::<Seq<char>>::empty(),
        is_sorted::<Setting>(exported_settings(stored)),
        forall|i: int|
            0 <= i < exported_settings(stored).len() ==> exportable(
                (#[trigger] exported_settings(stored)[i]).key,
            ) && exported_settings(stored)[i] == carried(stored, exported_settings(stored)[i].key)
                && t_get(stored, exported_settings(stored)[i].key) is Some,
        forall|k: Seq<char>|
            exportable(k) && t_get(stored, k) is Some ==> exported_settings(stored).contains(
                #[trigger] carried(stored, k),
            ),
{
    broadcast use vstd::seq_lib::group_to_multiset_ensures;

    let plain = values_of(stored, exportable_keys());
    let all = exported_settings(stored);
    lemma_values(stored, exportable_keys());
    settings_are_ranked();
    sorting_keeps_the_items_and_orders_them::<Setting>(plain);
    assert forall|i: int| 0 <= i < all.len() implies exportable((#[trigger] all[i]).key) && all[i]
        == carried(stored, all[i].key) && t_get(stored, all[i].key) is Some by {
        assert(all.contains(all[i]));
        assert(all.to_multiset().count(all[i]) > 0);
        assert(plain.contains(all[i]));
        let j = choose|j: int| 0 <= j < plain.len() && plain[j] == all[i];
        assert(exportable_keys().contains(plain[j].key));
        assert(all[i] =~= carried(stored, all[i].key));
    }
    assert forall|k: Seq<char>|
        exportable(k) && t_get(stored, k) is Some implies all.contains(
        #[trigger] carried(stored, k),
    ) by {
        assert(plain.contains(carried(stored, k)));
        assert(plain.to_multiset().count(carried(stored, k)) > 0);
        assert(all.to_multiset().count(carried(stored, k)) > 0);
    }
    lemma_all_applied(all);
}

} // verus!
