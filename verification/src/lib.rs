//! The rules of a client for the VPNDetection API: anonymity detection covering
//! VPNs, residential proxies, Tor nodes, hosting servers, CDNs and relays.
//!
//! Nothing here opens a socket, reads a clock or touches a disk. A call is a
//! value: it says what to send, how long to wait and what to hand back, and it
//! is told what came of each. Start with [`Client::new`] and [`Client::lookup`].
//! No API key is needed.
//!
//! # Absent is not false
//!
//! Every field beyond `ip` and `is_vpn` is an [`Option`], because the plan
//! decides which of them the API sends. `None` means "not in your plan", which
//! is a different answer from `Some(false)`. Read the option itself wherever
//! that matters, or an `_or_false` reader when all that matters is whether an
//! address is flagged.

pub mod address;
pub mod batch;
pub mod bogon;
pub mod bogons;
pub mod client;
pub mod database;
pub mod entitlement;
pub mod error;
pub mod flight;
pub mod index;
pub mod integration;
pub mod ipv6;
pub mod json;
pub mod lookup;
pub mod middleware;
pub mod number;
pub mod oauth;
pub mod retry;
pub mod text;
pub mod time;
pub mod transport;

pub use batch::BatchOptions;
pub use bogon::is_bogon;
pub use client::{Client, ClientBuilder, LookupOptions, DEFAULT_BASE_URL};
pub use database::{Database, Format};
pub use entitlement::{Entitlement, EntitlementApikey, EntitlementPlan, EntitlementUsage};
pub use error::{Error, ErrorKind};
pub use lookup::{ClassDetail, Lookup, LookupResponse, ProxyDetail, VpnDetail};
pub use oauth::{
    DeviceAuthorization, DeviceAuthorizationOptions, OauthApi, OauthError, OauthErrorResponse,
    OauthMetadata, OauthOptions, TokenResponse,
};
pub use time::Duration;
