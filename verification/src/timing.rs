//! How long the engine waits and how long what it does holds. All values are in milliseconds.
use vstd::prelude::*;

verus! {

/// How long the isolated application may take to start up.
pub const STARTUP_TIMEOUT: u64 = 20_000;

/// How long reading from or writing to the theme channel may take.
pub const THEME_CHANNEL_IO_TIMEOUT: u64 = 3_000;

/// How long one read of the theme channel waits while a theme is applied.
pub const THEME_CHANNEL_READ_POLL_INTERVAL: u64 = 250;

/// How long a look at the state of the page may take.
pub const STATUS_PROBE_TIMEOUT: u64 = 250;

/// How long the page of a preview may be out of sight.
pub const STATUS_PROBE_GRACE_PERIOD: u64 = 15_000;

/// How long a theme stays on the page without a renewal of its lease.
pub const PAGE_LEASE_DURATION: u64 = 15_000;

/// How often the lease of a theme is renewed.
pub const PAGE_LEASE_RENEW_INTERVAL: u64 = 5_000;

/// How long the processes of the isolated application may take to end.
pub const PROCESS_SHUTDOWN_TIMEOUT: u64 = 1_000;

} // verus!
