//! What the core takes from the clock and from chance.
use vstd::prelude::*;

verus! {

/// `uuid::Uuid::new_v4`, written by its `Display`: 36 characters with hyphens at the
/// four places of the hyphenated form. Which ones they are is left to chance.
#[verifier::external_body]
pub(crate) fn fresh_id() -> (r: String)
    ensures
        r@.len() == 36,
        r@[8] == '-' && r@[13] == '-' && r@[18] == '-' && r@[23] == '-',
{
    uuid::Uuid::new_v4().to_string()
}

/// `chrono::Utc::now`, taken apart by `timestamp` and `timestamp_subsec_nanos`: the whole
/// seconds since the Unix epoch, and the nanoseconds since the last of them, which are less
/// than a second. Which ones they are is left to the clock.
#[verifier::external_body]
fn clock() -> (r: (i64, u32))
    ensures
        r.1 < 1_000_000_000,
{
    let now = chrono::Utc::now();
    (now.timestamp(), now.timestamp_subsec_nanos())
}

/// A time in nanoseconds since the Unix epoch.
pub fn nanos(secs: i64, subsec: u32) -> (n: i128)
    ensures
        n == secs * 1_000_000_000 + subsec,
{
    (secs as i128) * 1_000_000_000 + (subsec as i128)
}

/// A time in whole milliseconds since the Unix epoch.
pub fn millis(now: i128) -> (m: i128)
    ensures
        m == now as int / 1_000_000,
{
    if now >= 0 {
        ((now as u128) / 1_000_000) as i128
    } else {
        -1 - (((-1 - now) as u128) / 1_000_000) as i128
    }
}

/// The time of now, in nanoseconds since the Unix epoch.
pub(crate) fn now_nanos() -> (n: i128) {
    let (secs, subsec) = clock();
    nanos(secs, subsec)
}

/// A fresh identifier and the time at which it was drawn.
#[derive(Debug)]
pub struct Stamp {
    pub id: String,
    /// Nanoseconds since the Unix epoch.
    pub now: i128,
}

impl Stamp {
    /// A new identifier, and the time of now.
    pub fn fresh() -> (s: Stamp)
        ensures
            s.id@.len() == 36,
    {
        Stamp { id: fresh_id(), now: now_nanos() }
    }
}

} // verus!
