//! What an API key is entitled to, and how much of it has been used.

use vstd::prelude::*;

verus! {

/// A moment, and the offset from UTC it was written with.
#[derive(Clone, Copy, Debug, PartialEq, Eq)]
pub struct Timestamp {
    /// Seconds since 1970, in UTC.
    pub secs: i64,
    pub nanos: u32,
    pub offset_secs: i32,
}

/// What an API key is entitled to, and what it has spent.
#[derive(Clone, Debug, PartialEq, Eq)]
pub struct Entitlement {
    /// The organization the key belongs to.
    pub org_id: String,
    pub apikey: EntitlementApikey,
    pub plan: EntitlementPlan,
    pub usage: EntitlementUsage,
}

/// The credential itself, by its id rather than by the key.
#[derive(Clone, Debug, PartialEq, Eq)]
pub struct EntitlementApikey {
    pub id: String,
    /// `None` for a key with no end date.
    pub expires: Option<Timestamp>,
    /// The source addresses this key may be used from. Empty means unrestricted.
    pub allowed_cidrs: Vec<String>,
}

/// The plan behind the key, and the field tier it buys.
#[derive(Clone, Debug, PartialEq, Eq)]
pub struct EntitlementPlan {
    /// The plan the organization is on.
    pub key: String,
    /// The field tier: `free`, `starter`, `scale` or `max`.
    pub tier: String,
}

/// Consumption against the plan's allowance, in the current window.
#[derive(Clone, Debug, PartialEq, Eq)]
pub struct EntitlementUsage {
    /// Requests counted in the current window.
    pub requests: i64,
    /// What the plan has room for.
    pub quota: i64,
    /// Where serving stops. `None` means never, which is not the same as zero.
    pub hard_limit: Option<i64>,
    pub window_start: Timestamp,
    pub window_end: Timestamp,
}

}
