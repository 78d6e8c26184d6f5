//! Deadlines by the clock of the system.
use vstd::prelude::*;

use crate::error::CodexError;

verus! {

/// `SystemTime::elapsed` of `UNIX_EPOCH` gives the time since the start of the year 1970, here in
/// whole seconds, or nothing where the clock of the system is set to before. What the clock shows
/// is left open.
#[verifier::external_body]
fn seconds_since_epoch() -> (result: Option<u64>) {
    std::time::UNIX_EPOCH.elapsed().ok().map(|duration| duration.as_secs())
}

/// `SystemTime::checked_sub` of `UNIX_EPOCH` gives the time so many seconds before the start of the
/// year 1970, where the clock of the system holds it; here whether it does. Which times the clock
/// holds is left open.
#[verifier::external_body]
fn clock_goes_back(seconds: u64) -> (result: bool) {
    std::time::UNIX_EPOCH.checked_sub(std::time::Duration::from_secs(seconds)).is_some()
}

/// The seconds from a day before the start of the year -9999 to the start of the year 1970.
pub const SECONDS_OF_CALENDAR: u64 = 377_705_203_200;

/// Which times the clock of the system holds.
#[derive(Clone, Copy, Debug)]
pub struct ClockRange {
    holds_calendar: bool,
}

impl ClockRange {
    /// Whether the clock goes back as far as the calendar does, to the year -9999.
    pub closed spec fn spans_calendar(self) -> bool {
        self.holds_calendar
    }

    /// The times that the clock of this system holds. Which these are is left open.
    pub fn of_system() -> (result: ClockRange) {
        ClockRange { holds_calendar: clock_goes_back(SECONDS_OF_CALENDAR) }
    }

    /// Whether the clock goes back as far as the calendar does, to the year -9999.
    pub fn holds_calendar(&self) -> (result: bool)
        ensures
            result == self.spans_calendar(),
    {
        self.holds_calendar
    }
}

/// The seconds that a reading of the clock stands for: zero where the clock is set to before the
/// start of the year 1970.
pub fn clock_seconds(since_epoch: Option<u64>) -> (result: u64)
    ensures
        result == match since_epoch {
            Some(seconds) => seconds,
            None => 0,
        },
{
    match since_epoch {
        Some(seconds) => seconds,
        None => 0,
    }
}

/// The seconds since the start of the year 1970 by the clock of the system; zero where the clock
/// is set to before. What the clock shows is left open.
pub fn unix_time() -> (result: u64) {
    clock_seconds(seconds_since_epoch())
}

/// The time that is left, in seconds, of something that ends at a given second.
pub open spec fn time_left(expires_at: u64, now: u64) -> Option<u64> {
    if expires_at > now {
        Some((expires_at - now) as u64)
    } else {
        None
    }
}

/// The time that is left, in seconds, at a given second.
pub fn remaining_at(expires_at: u64, now: u64) -> (result: Result<u64, CodexError>)
    ensures
        match result {
            Ok(remaining) => time_left(expires_at, now) == Some(remaining),
            Err(error) => time_left(expires_at, now) is None && error@
                == "主题授权或试用已到期"@,
        },
{
    let remaining: u64 = expires_at.saturating_sub(now);
    if remaining == 0 {
        return Err(CodexError::new("主题授权或试用已到期"));
    }
    Ok(remaining)
}

/// The time that is left, in seconds, now.
pub fn remaining_until(expires_at: u64) -> (result: Result<u64, CodexError>)
    ensures
        match result {
            Ok(remaining) => 0 < remaining <= expires_at,
            Err(error) => error@ == "主题授权或试用已到期"@,
        },
        expires_at == 0 ==> result is Err,
{
    remaining_at(expires_at, unix_time())
}

/// The second at which a preview ends that lasts for some seconds, as far as a `u64` reaches.
pub fn expiry_after(now: u64, duration: Option<u64>) -> (result: Option<u64>)
    ensures
        result == match duration {
            Some(seconds) => Some(
                if now + seconds > u64::MAX {
                    u64::MAX
                } else {
                    (now + seconds) as u64
                },
            ),
            None => None,
        },
{
    match duration {
        Some(seconds) => Some(now.saturating_add(seconds)),
        None => None,
    }
}

/// A preview that has time left has had time left before, and no less of it.
pub proof fn time_only_runs_out(expires_at: u64, earlier: u64, later: u64)
    requires
        earlier <= later,
    ensures
        time_left(expires_at, later) is Some ==> time_left(expires_at, earlier) is Some,
        time_left(expires_at, later) is Some ==> time_left(expires_at, later)->0 <= time_left(
            expires_at,
            earlier,
        )->0,
{
}

/// What is left up to a second, put behind now, is that second; where it has come, nothing is left.
pub proof fn remaining_time_ends_at_its_second(
    expires_at: u64,
    now: u64,
    remaining: Result<u64, CodexError>,
)
    requires
        call_ensures(remaining_at, (expires_at, now), remaining),
    ensures
        remaining is Ok <==> now < expires_at,
        remaining is Ok ==> now + remaining->Ok_0 == expires_at,
        remaining matches Err(error) ==> error@ == "主题授权或试用已到期"@,
{
}

/// What lasts for some seconds ends so many seconds from now, but no later than a `u64` can say, and
/// what lasts for no given time does not end.
pub proof fn lasting_ends_behind_its_duration(
    now: u64,
    duration: Option<u64>,
    expires_at: Option<u64>,
)
    requires
        call_ensures(expiry_after, (now, duration), expires_at),
    ensures
        duration is None <==> expires_at is None,
        duration is Some && now + duration->0 <= u64::MAX ==> expires_at->0 - now == duration->0,
        duration is Some && now + duration->0 > u64::MAX ==> expires_at->0 == u64::MAX,
{
}

/// A clock that is set to before the year 1970 counts as one that shows its start.
pub proof fn clock_counts_from_its_epoch(since_epoch: Option<u64>, seconds: u64)
    requires
        call_ensures(clock_seconds, (since_epoch,), seconds),
    ensures
        since_epoch is Some ==> seconds == since_epoch->0,
        since_epoch is None ==> seconds == 0,
{
}

} // verus!
