//! Stored settings.
use crate::sorting::{is_ranking, Ranked};
use crate::text::{before, lemma_before, text_before};
use vstd::prelude::*;

verus! {

/// Whether conversations are logged.
pub const SETTING_TELEMETRY_ENABLED: &'static str = "telemetry_enabled";

/// How many days conversation logs are kept; nothing or 0 means forever.
pub const SETTING_TELEMETRY_RETENTION_DAYS: &'static str = "telemetry_retention_days";

/// A settings key and its value.
#[derive(Debug)]
pub struct Setting {
    pub key: String,
    pub value: String,
}

#[verifier::ext_equal]
pub struct SettingV {
    pub key: Seq<char>,
    pub value: Seq<char>,
}

impl View for Setting {
    type V = SettingV;

    open spec fn view(&self) -> SettingV {
        SettingV { key: self.key@, value: self.value@ }
    }
}

pub open spec fn setting_views(s: Seq<Setting>) -> Seq<SettingV> {
    s.map_values(|x: Setting| x@)
}

impl Ranked for Setting {
    open spec fn in_order(a: SettingV, b: SettingV) -> bool {
        !before(b.key, a.key)
    }

    fn may_precede(&self, other: &Self) -> bool {
        !text_before(other.key.as_str(), self.key.as_str())
    }
}

/// Settings are ranked by key.
pub proof fn settings_are_ranked()
    ensures
        is_ranking::<Setting>(),
{
    assert forall|a: SettingV, b: SettingV| #[trigger]
        Setting::in_order(a, b) || Setting::in_order(b, a) by {
        lemma_before(a.key, b.key, b.key);
    }
    assert forall|a: SettingV, b: SettingV, c: SettingV| #[trigger]
        Setting::in_order(a, b) && #[trigger] Setting::in_order(b, c) implies Setting::in_order(
        a,
        c,
    ) by {
        lemma_before(a.key, b.key, c.key);
    }
}

} // verus!
