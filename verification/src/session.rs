//! The preview of a theme: at most one session at a time, and what becomes of it.
use vstd::prelude::*;

use crate::channel::{evaluate_command, evaluate_tree};
use crate::clock::{expiry_after, remaining_at, time_left};
use crate::decimal::decimal;
use crate::error::CodexError;
use crate::expression::{
    locale_change_of, renew_theme_lease_expression, renewal_of, sync_locale_expression,
};
use crate::json::{json_parsed, reads_as, JsonTree};
use crate::startup::missing_slots;
use crate::text::{copy_texts, string_views};
use crate::timing::{PAGE_LEASE_DURATION, STATUS_PROBE_GRACE_PERIOD};

verus! {

/// Where the theme of a preview comes from.
#[derive(Clone, Copy, Debug, PartialEq, Eq, Structural)]
pub enum ThemePreviewSource {
    Installed,
    LocalDevelopment,
}

/// What is told of a preview.
#[derive(Debug)]
pub struct ThemePreviewReport {
    pub theme_id: String,
    /// The summary of the theme, as JSON.
    pub theme: String,
    pub source: ThemePreviewSource,
    /// When the preview ends, in seconds since 1970.
    pub expires_at: Option<u64>,
    pub app_version: String,
    pub port: u16,
    pub applied_slots: Vec<String>,
    pub loopback_only: bool,
}

/// The contents of a report.
pub struct ReportModel {
    pub theme_id: Seq<char>,
    pub theme: Seq<char>,
    pub source: ThemePreviewSource,
    pub expires_at: Option<u64>,
    pub app_version: Seq<char>,
    pub port: u16,
    pub applied_slots: Seq<Seq<char>>,
    pub loopback_only: bool,
}

impl View for ThemePreviewReport {
    type V = ReportModel;

    open spec fn view(&self) -> ReportModel {
        ReportModel {
            theme_id: self.theme_id@,
            theme: self.theme@,
            source: self.source,
            expires_at: self.expires_at,
            app_version: self.app_version@,
            port: self.port,
            applied_slots: string_views(self.applied_slots@),
            loopback_only: self.loopback_only,
        }
    }
}

impl Clone for ThemePreviewReport {
    fn clone(&self) -> (result: ThemePreviewReport)
        ensures
            result@ == self@,
    {
        ThemePreviewReport {
            theme_id: self.theme_id.clone(),
            theme: self.theme.clone(),
            source: self.source,
            expires_at: self.expires_at,
            app_version: self.app_version.clone(),
            port: self.port,
            applied_slots: copy_texts(self.applied_slots.as_slice()),
            loopback_only: self.loopback_only,
        }
    }
}

/// A running preview. Times are in nanoseconds of a clock that only goes forward.
#[derive(Debug)]
pub struct ThemeSession {
    pub id: u64,
    /// The port of the theme channel.
    pub port: u16,
    pub deadline: Option<u128>,
    /// Since when the page is out of sight.
    pub target_missing_since: Option<u128>,
    pub report: ThemePreviewReport,
}

/// The state of the preview: the session that is running, and the number of the next one.
#[derive(Debug)]
pub struct ThemeRuntime {
    pub session: Option<ThemeSession>,
    pub next_session_id: u64,
}

/// What was seen of the application in which a preview runs.
#[derive(Clone, Copy, Debug, PartialEq, Eq, Structural)]
pub enum Sighting {
    /// The application has ended.
    Exited,
    /// Its page was found.
    PageFound,
    /// Its page was not found, or the look for it failed.
    PageMissing,
}

/// What is to be looked at before the state of the preview is known.
#[derive(Clone, Copy, Debug, PartialEq, Eq, Structural)]
pub enum PreviewCheck {
    /// There is no session.
    Absent,
    /// The session is over.
    Expired,
    /// The application of the session is to be looked at, on this port.
    Look { port: u16 },
}

/// The number of the session behind one with a given number. Numbers start again at zero behind the
/// largest one.
pub open spec fn number_behind(id: u64) -> u64 {
    if id == u64::MAX {
        0
    } else {
        (id + 1) as u64
    }
}

/// How long the page may be out of sight, in nanoseconds.
pub open spec fn grace_period() -> int {
    STATUS_PROBE_GRACE_PERIOD * 1_000_000
}

impl ThemeSession {
    /// A session is told of under its own port, and it has a deadline if and only if it is told to
    /// end.
    pub open spec fn well_formed(self) -> bool {
        &&& self.report.port == self.port
        &&& self.deadline is Some <==> self.report.expires_at is Some
    }

    /// Whether the session is over by its deadline.
    pub open spec fn expired(self, now: u128) -> bool {
        self.deadline matches Some(deadline) && now >= deadline
    }

    /// Since when the page is out of sight if it is so at a given time.
    pub open spec fn missing_since(self, now: u128) -> u128 {
        match self.target_missing_since {
            Some(since) => since,
            None => now,
        }
    }

    /// Whether the session goes on after a look at its application.
    pub open spec fn survives(self, now: u128, sighting: Sighting, seen_at: u128) -> bool {
        &&& !self.expired(now)
        &&& match sighting {
            Sighting::Exited => false,
            Sighting::PageFound => true,
            Sighting::PageMissing => seen_at - self.missing_since(seen_at) < grace_period(),
        }
    }

    /// Since when the page is out of sight after a look at the application.
    pub open spec fn missing_after(self, sighting: Sighting, seen_at: u128) -> Option<u128> {
        match sighting {
            Sighting::PageMissing => Some(self.missing_since(seen_at)),
            _ => None,
        }
    }
}

/// Whether a session is the same as another but for the time since which its page is out of sight.
pub open spec fn same_but_for_sight(session: ThemeSession, other: ThemeSession) -> bool {
    &&& session.id == other.id
    &&& session.port == other.port
    &&& session.deadline == other.deadline
    &&& session.report == other.report
}

/// What a look at the application makes of the state of the preview.
pub open spec fn looked_at(
    before: ThemeRuntime,
    after: ThemeRuntime,
    now: u128,
    sighting: Sighting,
    seen_at: u128,
) -> bool {
    &&& after.next_session_id == before.next_session_id
    &&& match before.session {
        Some(session) => if session.survives(now, sighting, seen_at) {
            &&& after.session is Some
            &&& same_but_for_sight(after.session->0, session)
            &&& after.session->0.target_missing_since == session.missing_after(sighting, seen_at)
        } else {
            after.session is None
        },
        None => after.session is None,
    }
}

impl Default for ThemeRuntime {
    fn default() -> (result: ThemeRuntime)
        ensures
            result.session is None,
            result.next_session_id == 1,
    {
        ThemeRuntime { session: None, next_session_id: 1 }
    }
}

impl ThemeRuntime {
    /// What is to be looked at before the state of the preview is known.
    pub fn preview_check(&self, now: u128) -> (result: PreviewCheck)
        ensures
            result == match self.session {
                Some(session) => if session.expired(now) {
                    PreviewCheck::Expired
                } else {
                    PreviewCheck::Look { port: session.port }
                },
                None => PreviewCheck::Absent,
            },
    {
        match &self.session {
            Some(session) => {
                if let Some(deadline) = session.deadline {
                    if now >= deadline {
                        return PreviewCheck::Expired;
                    }
                }
                PreviewCheck::Look { port: session.port }
            },
            None => PreviewCheck::Absent,
        }
    }

    /// The state of the preview after a look at its application, which began at one time and ended
    /// at another: what is told of the session that goes on, or nothing. A session ends when its
    /// time is up, when the application has ended, or when the page has been out of sight for too
    /// long.
    pub fn current_preview(&mut self, now: u128, sighting: Sighting, seen_at: u128) -> (result:
        Option<ThemePreviewReport>)
        ensures
            looked_at(*old(self), *final(self), now, sighting, seen_at),
            match result {
                Some(report) => final(self).session is Some && report@
                    == final(self).session->0.report@,
                None => final(self).session is None,
            },
    {
        let mut session = match self.session.take() {
            Some(session) => session,
            None => {
                return None;
            },
        };
        if let Some(deadline) = session.deadline {
            if now >= deadline {
                return None;
            }
        }
        match sighting {
            Sighting::Exited => {
                return None;
            },
            Sighting::PageFound => {
                session.target_missing_since = None;
            },
            Sighting::PageMissing => {
                let since: u128 = match session.target_missing_since {
                    Some(since) => since,
                    None => seen_at,
                };
                if seen_at >= since && seen_at - since >= STATUS_PROBE_GRACE_PERIOD as u128
                    * 1_000_000 {
                    return None;
                }
                session.target_missing_since = Some(since);
            },
        }
        let report = session.report.clone();
        self.session = Some(session);
        Some(report)
    }

    /// The theme of the preview after a look at its application.
    pub fn current_theme_id(&mut self, now: u128, sighting: Sighting, seen_at: u128) -> (result:
        Option<String>)
        ensures
            looked_at(*old(self), *final(self), now, sighting, seen_at),
            match result {
                Some(theme_id) => final(self).session is Some && theme_id@
                    == final(self).session->0.report.theme_id@,
                None => final(self).session is None,
            },
    {
        match self.current_preview(now, sighting, seen_at) {
            Some(report) => Some(report.theme_id),
            None => None,
        }
    }

    /// The number of a new session.
    pub fn take_session_id(&mut self) -> (result: u64)
        ensures
            result == old(self).next_session_id,
            final(self).next_session_id == number_behind(old(self).next_session_id),
            final(self).session == old(self).session,
    {
        let id: u64 = self.next_session_id;
        self.next_session_id = id.wrapping_add(1);
        id
    }

    /// What is to be done to renew the lease of the theme on the page. Without a session there is
    /// nothing to do.
    pub fn renew_page_lease(&self) -> (result: Option<PageRequest>)
        ensures
            match (result, self.session) {
                (Some(request), Some(session)) => request.asks(
                    session.port,
                    renewal_of(session.id, PAGE_LEASE_DURATION as nat),
                ),
                (None, None) => true,
                _ => false,
            },
    {
        match &self.session {
            Some(session) => Some(
                page_request(
                    session.port,
                    renew_theme_lease_expression(session.id, PAGE_LEASE_DURATION as u128).as_str(),
                ),
            ),
            None => None,
        }
    }

    /// Makes a session the running one. Where one is running already, nothing changes.
    pub fn begin(&mut self, session: ThemeSession) -> (result: Result<(), CodexError>)
        ensures
            final(self).next_session_id == old(self).next_session_id,
            match result {
                Ok(()) => old(self).session is None && final(self).session == Some(session),
                Err(error) => old(self).session is Some && final(self).session
                    == old(self).session && error@ == "主题预览启动发生并发冲突"@,
            },
    {
        if self.session.is_some() {
            return Err(CodexError::new("主题预览启动发生并发冲突"));
        }
        self.session = Some(session);
        Ok(())
    }
}

/// What is to be asked of the page of the application on a port: the evaluation of an expression
/// that gives a truth value.
#[derive(Debug)]
pub struct PageRequest {
    pub port: u16,
    /// The number of the command, which the reply to it carries.
    pub command_id: u64,
    /// The command, as it goes over the theme channel.
    pub command: String,
}

impl PageRequest {
    /// Whether the request asks the page on a port to evaluate an expression, by the first command
    /// on a channel of its own.
    pub open spec fn asks(self, port: u16, expression: Seq<char>) -> bool {
        &&& self.port == port
        &&& self.command_id == 1
        &&& reads_as(self.command@, evaluate_tree(1, expression))
    }
}

fn page_request(port: u16, expression: &str) -> (result: PageRequest)
    ensures
        result.asks(port, expression@),
{
    PageRequest { port, command_id: 1, command: evaluate_command(1, expression) }
}

/// What came of a request to the page of the running session.
#[derive(Debug)]
pub enum PageEvent {
    /// No session was running, so nothing was asked.
    NoSession,
    /// The look for the page failed.
    LookFailed(CodexError),
    /// The page was not found.
    PageMissing,
    /// The evaluation has come to this.
    Evaluated(Result<bool, CodexError>),
}

/// What a request to the page comes to: what the page has said, or the failure on the way there.
/// Without a session or a page it comes to nothing.
pub fn page_outcome(event: PageEvent) -> (result: Result<bool, CodexError>)
    ensures
        result == match event {
            PageEvent::NoSession => Ok::<bool, CodexError>(false),
            PageEvent::LookFailed(error) => Err(error),
            PageEvent::PageMissing => Ok(false),
            PageEvent::Evaluated(evaluated) => evaluated,
        },
{
    match event {
        PageEvent::NoSession => Ok(false),
        PageEvent::LookFailed(error) => Err(error),
        PageEvent::PageMissing => Ok(false),
        PageEvent::Evaluated(evaluated) => evaluated,
    }
}

/// What is to be done to switch the language of the theme on the page. Without a session there is
/// nothing to do.
pub fn sync_theme_locale(runtime: &ThemeRuntime, locale: &str) -> (result: Option<PageRequest>)
    ensures
        match (result, runtime.session) {
            (Some(request), Some(session)) => request.asks(
                session.port,
                locale_change_of(session.id, locale@),
            ),
            (None, None) => true,
            _ => false,
        },
{
    match &runtime.session {
        Some(session) => Some(
            page_request(
                session.port,
                sync_locale_expression(session.id, locale).as_str(),
            ),
        ),
        None => None,
    }
}

/// When a preview is to end.
#[derive(Clone, Copy, Debug, PartialEq, Eq, Structural)]
pub enum PreviewEnd {
    Never,
    /// At a given second since 1970.
    At(u64),
    /// So many seconds after its theme is loaded.
    After(u64),
}

/// A preview that may start: where its theme comes from, and when it is to end.
#[derive(Clone, Copy, Debug, PartialEq, Eq, Structural)]
pub struct PreviewPlan {
    pub source: ThemePreviewSource,
    pub end: PreviewEnd,
}

/// The second at which a preview ends whose theme was loaded at a given second, as far as a `u64`
/// reaches.
pub open spec fn expiry_of(end: PreviewEnd, loaded_at: u64) -> Option<u64> {
    match end {
        PreviewEnd::Never => None,
        PreviewEnd::At(second) => Some(second),
        PreviewEnd::After(seconds) => Some(
            if loaded_at + seconds > u64::MAX {
                u64::MAX
            } else {
                (loaded_at + seconds) as u64
            },
        ),
    }
}

impl PreviewPlan {
    /// The second at which the preview ends, once its theme is loaded.
    pub fn expires_at(&self, loaded_at: u64) -> (result: Option<u64>)
        ensures
            result == expiry_of(self.end, loaded_at),
    {
        match self.end {
            PreviewEnd::Never => None,
            PreviewEnd::At(second) => Some(second),
            PreviewEnd::After(seconds) => expiry_after(loaded_at, Some(seconds)),
        }
    }
}

/// Whether a new preview may start after a look at the application of the running one, if any.
fn admit_preview(
    runtime: &mut ThemeRuntime,
    now: u128,
    sighting: Sighting,
    seen_at: u128,
) -> (result: Result<(), CodexError>)
    ensures
        looked_at(*old(runtime), *final(runtime), now, sighting, seen_at),
        match result {
            Ok(()) => final(runtime).session is None,
            Err(error) => final(runtime).session is Some && error@
                == "已有主题预览正在运行，请先恢复当前主题"@,
        },
{
    match runtime.current_preview(now, sighting, seen_at) {
        Some(_) => Err(CodexError::new("已有主题预览正在运行，请先恢复当前主题")),
        None => Ok(()),
    }
}

/// The plan for an installed theme, which may end at a given second.
pub open spec fn installed_plan(expires_at: Option<u64>) -> PreviewPlan {
    PreviewPlan {
        source: ThemePreviewSource::Installed,
        end: match expires_at {
            Some(second) => PreviewEnd::At(second),
            None => PreviewEnd::Never,
        },
    }
}

/// The plan for a theme in development, which may last for some seconds.
pub open spec fn development_plan(duration: Option<u64>) -> PreviewPlan {
    PreviewPlan {
        source: ThemePreviewSource::LocalDevelopment,
        end: match duration {
            Some(seconds) => PreviewEnd::After(seconds),
            None => PreviewEnd::Never,
        },
    }
}

/// Plans the preview of an installed theme, which may end at a given second, after a look at the
/// application of the running preview, if any. It fails where that preview goes on.
pub fn start_theme_preview_until(
    runtime: &mut ThemeRuntime,
    now: u128,
    sighting: Sighting,
    seen_at: u128,
    expires_at: Option<u64>,
) -> (result: Result<PreviewPlan, CodexError>)
    ensures
        looked_at(*old(runtime), *final(runtime), now, sighting, seen_at),
        match result {
            Ok(plan) => final(runtime).session is None && plan == installed_plan(expires_at),
            Err(error) => final(runtime).session is Some && error@
                == "已有主题预览正在运行，请先恢复当前主题"@,
        },
{
    match admit_preview(runtime, now, sighting, seen_at) {
        Ok(()) => Ok(
            PreviewPlan {
                source: ThemePreviewSource::Installed,
                end: match expires_at {
                    Some(second) => PreviewEnd::At(second),
                    None => PreviewEnd::Never,
                },
            },
        ),
        Err(error) => Err(error),
    }
}

/// Plans the preview of a theme in development, which may last for some seconds, as that of an
/// installed one.
pub fn start_development_theme_preview(
    runtime: &mut ThemeRuntime,
    now: u128,
    sighting: Sighting,
    seen_at: u128,
    duration: Option<u64>,
) -> (result: Result<PreviewPlan, CodexError>)
    ensures
        looked_at(*old(runtime), *final(runtime), now, sighting, seen_at),
        match result {
            Ok(plan) => final(runtime).session is None && plan == development_plan(duration),
            Err(error) => final(runtime).session is Some && error@
                == "已有主题预览正在运行，请先恢复当前主题"@,
        },
{
    match admit_preview(runtime, now, sighting, seen_at) {
        Ok(()) => Ok(
            PreviewPlan {
                source: ThemePreviewSource::LocalDevelopment,
                end: match duration {
                    Some(seconds) => PreviewEnd::After(seconds),
                    None => PreviewEnd::Never,
                },
            },
        ),
        Err(error) => Err(error),
    }
}

/// A session that is about to start.
#[derive(Clone, Copy, Debug, PartialEq, Eq, Structural)]
pub struct SessionTicket {
    pub id: u64,
    pub source: ThemePreviewSource,
    /// When the session ends, in seconds since 1970.
    pub expires_at: Option<u64>,
    /// How many seconds it has.
    pub remaining: Option<u64>,
}

impl SessionTicket {
    /// A session has some seconds if and only if it ends.
    pub open spec fn well_formed(self) -> bool {
        match (self.expires_at, self.remaining) {
            (Some(expires_at), Some(remaining)) => 0 < remaining <= expires_at,
            (None, None) => true,
            _ => false,
        }
    }

    /// Whether the session carries out a plan, where the theme was loaded at one second and the
    /// session starts at another.
    pub open spec fn carries_out(self, plan: PreviewPlan, loaded_at: u64, unix_now: u64) -> bool {
        &&& self.source == plan.source
        &&& self.expires_at == expiry_of(plan.end, loaded_at)
        &&& self.remaining == match self.expires_at {
            Some(expires_at) => time_left(expires_at, unix_now),
            None => None,
        }
    }
}

/// Gives a new session its number and the seconds that it has, if it ends. It fails where it has
/// ended already; its number is then used up all the same.
pub fn prepare_session(
    runtime: &mut ThemeRuntime,
    plan: &PreviewPlan,
    loaded_at: u64,
    unix_now: u64,
) -> (result: Result<SessionTicket, CodexError>)
    ensures
        final(runtime).session == old(runtime).session,
        final(runtime).next_session_id == number_behind(old(runtime).next_session_id),
        match result {
            Ok(ticket) => ticket.well_formed() && ticket.id == old(runtime).next_session_id
                && ticket.carries_out(*plan, loaded_at, unix_now),
            Err(error) => expiry_of(plan.end, loaded_at) matches Some(expires_at) && time_left(
                expires_at,
                unix_now,
            ) is None && error@ == "主题授权或试用已到期"@,
        },
{
    let id: u64 = runtime.take_session_id();
    let expires_at: Option<u64> = plan.expires_at(loaded_at);
    let remaining: Option<u64> = match expires_at {
        Some(expires_at) => match remaining_at(expires_at, unix_now) {
            Ok(remaining) => Some(remaining),
            Err(error) => {
                return Err(error);
            },
        },
        None => None,
    };
    Ok(SessionTicket { id, source: plan.source, expires_at, remaining })
}

/// What is known of a theme that was put on the page of the application.
#[derive(Debug)]
pub struct AppliedTheme {
    pub theme_id: String,
    /// The summary of the theme, as JSON.
    pub theme: String,
    pub app_version: String,
    pub port: u16,
    pub applied_slots: Vec<String>,
    pub loopback_only: bool,
}

impl AppliedTheme {
    /// Whether the theme is applied as it should be: the page has all that the theme needs, and the
    /// application listens on the loopback address alone.
    pub open spec fn well_formed(self) -> bool {
        &&& self.loopback_only
        &&& missing_slots(string_views(self.applied_slots@)).len() == 0
    }
}

/// What is told of an applied theme.
pub open spec fn report_of(ticket: SessionTicket, applied: AppliedTheme) -> ReportModel {
    ReportModel {
        theme_id: applied.theme_id@,
        theme: applied.theme@,
        source: ticket.source,
        expires_at: ticket.expires_at,
        app_version: applied.app_version@,
        port: applied.port,
        applied_slots: string_views(applied.applied_slots@),
        loopback_only: applied.loopback_only,
    }
}

/// Makes the session of an applied theme the running one and says what is told of it. The session
/// ends some seconds from now, if it ends. It fails, and changes nothing, where another session has
/// been started meanwhile. A theme comes to this only once it is applied as it should be.
pub fn start_theme_package_preview(
    runtime: &mut ThemeRuntime,
    ticket: &SessionTicket,
    applied: AppliedTheme,
    now: u128,
) -> (result: Result<ThemePreviewReport, CodexError>)
    requires
        ticket.well_formed(),
        applied.well_formed(),
        ticket.remaining matches Some(seconds) ==> now + seconds * 1_000_000_000 <= u128::MAX,
    ensures
        final(runtime).next_session_id == old(runtime).next_session_id,
        match result {
            Ok(told) => {
                &&& old(runtime).session is None
                &&& told@ == report_of(*ticket, applied)
                &&& told.loopback_only
                &&& missing_slots(told@.applied_slots).len() == 0
                &&& final(runtime).session matches Some(session) && {
                    &&& session.well_formed()
                    &&& session.id == ticket.id
                    &&& session.port == applied.port
                    &&& session.target_missing_since is None
                    &&& session.report@ == told@
                    &&& match ticket.remaining {
                        Some(seconds) => session.deadline is Some && session.deadline->0 == now
                            + seconds * 1_000_000_000,
                        None => session.deadline is None,
                    }
                }
            },
            Err(error) => old(runtime).session is Some && final(runtime).session
                == old(runtime).session && error@ == "主题预览启动发生并发冲突"@,
        },
{
    let deadline: Option<u128> = match ticket.remaining {
        Some(seconds) => Some(now + seconds as u128 * 1_000_000_000),
        None => None,
    };
    let port: u16 = applied.port;
    let report = ThemePreviewReport {
        theme_id: applied.theme_id,
        theme: applied.theme,
        source: ticket.source,
        expires_at: ticket.expires_at,
        app_version: applied.app_version,
        port,
        applied_slots: applied.applied_slots,
        loopback_only: applied.loopback_only,
    };
    let told = report.clone();
    let session = ThemeSession { id: ticket.id, port, deadline, target_missing_since: None, report };
    match runtime.begin(session) {
        Ok(()) => Ok(told),
        Err(error) => Err(error),
    }
}

/// Ends the running session, if any, and gives it out.
pub fn stop_theme_preview(runtime: &mut ThemeRuntime) -> (result: Option<ThemeSession>)
    ensures
        result == old(runtime).session,
        final(runtime).session is None,
        final(runtime).next_session_id == old(runtime).next_session_id,
{
    runtime.session.take()
}

/// Ends the running session, if it has a given number, and gives it out. Another session goes on.
pub fn stop_theme_preview_if_session(runtime: &mut ThemeRuntime, session_id: u64) -> (result:
    Option<ThemeSession>)
    ensures
        final(runtime).next_session_id == old(runtime).next_session_id,
        if old(runtime).session matches Some(session) && session.id == session_id {
            result == old(runtime).session && final(runtime).session is None
        } else {
            result is None && final(runtime).session == old(runtime).session
        },
{
    let matching = match &runtime.session {
        Some(session) => session.id == session_id,
        None => false,
    };
    if matching {
        stop_theme_preview(runtime)
    } else {
        None
    }
}

/// What came of the theme on the page of a session that was ended.
#[derive(Debug)]
pub enum StopEvent {
    /// The application had ended before.
    Exited,
    /// The page was not found, or the look for it failed.
    PageMissing,
    /// The removal of the theme from the page has come to this.
    Removed(Result<bool, CodexError>),
}

/// Whether a preview was stopped: not where no session was running; else yes, unless its page was
/// there and did not let the theme go.
pub fn stop_outcome(event: Option<StopEvent>) -> (result: Result<bool, CodexError>)
    ensures
        result == match event {
            Some(StopEvent::Exited) => Ok::<bool, CodexError>(true),
            Some(StopEvent::PageMissing) => Ok(true),
            Some(StopEvent::Removed(removed)) => removed,
            None => Ok(false),
        },
{
    match event {
        Some(StopEvent::Exited) => Ok(true),
        Some(StopEvent::PageMissing) => Ok(true),
        Some(StopEvent::Removed(removed)) => removed,
        None => Ok(false),
    }
}

/// A session whose time is up is cleared, whatever is seen of its application.
pub proof fn expired_preview_is_cleared(
    before: ThemeRuntime,
    after: ThemeRuntime,
    now: u128,
    sighting: Sighting,
    seen_at: u128,
)
    requires
        looked_at(before, after, now, sighting, seen_at),
        before.session matches Some(session) && session.expired(now),
    ensures
        after.session is None,
{
}

/// A session whose application has ended is cleared.
pub proof fn exited_preview_is_cleared(
    before: ThemeRuntime,
    after: ThemeRuntime,
    now: u128,
    seen_at: u128,
)
    requires
        looked_at(before, after, now, Sighting::Exited, seen_at),
    ensures
        after.session is None,
{
}

/// A page that was in sight and is so no longer does not end the session yet, and a page that comes
/// back into sight makes up for the loss: two losses of sight do not add up.
pub proof fn brief_target_loss_keeps_the_preview(
    first: ThemeRuntime,
    second: ThemeRuntime,
    third: ThemeRuntime,
    lost_at: u128,
    found_at: u128,
)
    requires
        first.session matches Some(session) && session.target_missing_since is None
            && !session.expired(lost_at) && !session.expired(found_at),
        looked_at(first, second, lost_at, Sighting::PageMissing, lost_at),
        looked_at(second, third, found_at, Sighting::PageFound, found_at),
    ensures
        second.session is Some,
        second.session->0.target_missing_since == Some(lost_at),
        third.session == first.session,
{
}

/// A page that is out of sight for as long as the grace period ends the session.
pub proof fn lasting_target_loss_ends_the_preview(
    first: ThemeRuntime,
    second: ThemeRuntime,
    third: ThemeRuntime,
    lost_at: u128,
    still_lost_at: u128,
)
    requires
        first.session matches Some(session) && session.target_missing_since is None,
        looked_at(first, second, lost_at, Sighting::PageMissing, lost_at),
        looked_at(second, third, still_lost_at, Sighting::PageMissing, still_lost_at),
        still_lost_at - lost_at >= grace_period(),
    ensures
        third.session is None,
{
}

/// A look at the application keeps a session that goes on as it should be.
pub proof fn looks_keep_the_session_well_formed(
    before: ThemeRuntime,
    after: ThemeRuntime,
    now: u128,
    sighting: Sighting,
    seen_at: u128,
)
    requires
        looked_at(before, after, now, sighting, seen_at),
        before.session matches Some(session) ==> session.well_formed(),
    ensures
        after.session matches Some(session) ==> session.well_formed(),
{
}

/// A preview of a theme in development that lasts for some seconds has, when its theme has just been
/// loaded, exactly those seconds, as far as a `u64` reaches.
pub proof fn development_preview_lasts_for_its_duration(seconds: u64, loaded_at: u64)
    requires
        0 < seconds,
        loaded_at + seconds <= u64::MAX,
    ensures
        expiry_of(PreviewEnd::After(seconds), loaded_at) matches Some(expires_at) && time_left(
            expires_at,
            loaded_at,
        ) == Some(seconds),
{
}

/// What is told of the preview of an installed theme: that theme, as an installed one, up to the
/// second that was asked for.
pub proof fn installed_preview_is_told_as_asked(
    expires_at: Option<u64>,
    loaded_at: u64,
    unix_now: u64,
    ticket: SessionTicket,
    applied: AppliedTheme,
)
    requires
        ticket.carries_out(installed_plan(expires_at), loaded_at, unix_now),
    ensures
        report_of(ticket, applied).theme_id == applied.theme_id@,
        report_of(ticket, applied).source == ThemePreviewSource::Installed,
        report_of(ticket, applied).expires_at == expires_at,
{
}

/// What is told of the preview of a theme in development: that theme, as one in development, up to
/// so many seconds behind the second at which it was loaded as were asked for, as far as a `u64`
/// reaches.
pub proof fn development_preview_is_told_as_asked(
    duration: Option<u64>,
    loaded_at: u64,
    unix_now: u64,
    ticket: SessionTicket,
    applied: AppliedTheme,
)
    requires
        ticket.carries_out(development_plan(duration), loaded_at, unix_now),
    ensures
        report_of(ticket, applied).theme_id == applied.theme_id@,
        report_of(ticket, applied).source == ThemePreviewSource::LocalDevelopment,
        match (duration, report_of(ticket, applied).expires_at) {
            (Some(seconds), Some(expires_at)) => expires_at == if loaded_at + seconds > u64::MAX {
                u64::MAX as int
            } else {
                loaded_at + seconds
            },
            (None, None) => true,
            _ => false,
        },
{
}

/// A session that was numbered before another does not share its number: what is meant for the one
/// does not stop the other.
pub proof fn newer_session_has_another_number(older: u64)
    ensures
        number_behind(older) != older,
{
}

/// Whether what is told of a session is what a report says, word for word.
pub open spec fn tells(told: ThemePreviewReport, report: ThemePreviewReport) -> bool {
    &&& told.theme_id@ == report.theme_id@
    &&& told.theme@ == report.theme@
    &&& told.source == report.source
    &&& told.expires_at == report.expires_at
    &&& told.app_version@ == report.app_version@
    &&& told.port == report.port
    &&& told.loopback_only == report.loopback_only
    &&& told.applied_slots@.len() == report.applied_slots@.len()
    &&& forall|i: int|
        0 <= i < told.applied_slots@.len() ==> (#[trigger] told.applied_slots@[i])@
            == report.applied_slots@[i]@
}

proof fn lemma_told(told: ThemePreviewReport, report: ThemePreviewReport)
    requires
        told@ == report@,
    ensures
        tells(told, report),
{
    assert(string_views(told.applied_slots@).len() == string_views(report.applied_slots@).len());
    assert forall|i: int| 0 <= i < told.applied_slots@.len() implies (
    #[trigger] told.applied_slots@[i])@ == report.applied_slots@[i]@ by {
        assert(string_views(told.applied_slots@)[i] == string_views(report.applied_slots@)[i]);
    }
}

/// As long as its time is not up, a session whose page is in sight goes on as it was, with its page
/// out of sight no longer, and is told of.
pub proof fn preview_in_sight_goes_on(
    runtime: &mut ThemeRuntime,
    now: u128,
    seen_at: u128,
    told: Option<ThemePreviewReport>,
)
    requires
        call_ensures(
            ThemeRuntime::current_preview,
            (runtime, now, Sighting::PageFound, seen_at),
            told,
        ),
        old(runtime).session is Some,
        old(runtime).session->0.deadline matches Some(deadline) ==> now < deadline,
    ensures
        final(runtime).next_session_id == old(runtime).next_session_id,
        final(runtime).session is Some,
        final(runtime).session->0 == (ThemeSession {
            target_missing_since: None,
            ..old(runtime).session->0
        }),
        told is Some,
        tells(told->0, old(runtime).session->0.report),
{
    lemma_told(told->0, old(runtime).session->0.report);
}

/// As long as its time is not up, a session whose page is out of sight goes on until fifteen seconds
/// have passed since its page was first out of sight, and then ends. It keeps that time in mind.
pub proof fn preview_out_of_sight_goes_on_for_a_while(
    runtime: &mut ThemeRuntime,
    now: u128,
    seen_at: u128,
    told: Option<ThemePreviewReport>,
)
    requires
        call_ensures(
            ThemeRuntime::current_preview,
            (runtime, now, Sighting::PageMissing, seen_at),
            told,
        ),
        old(runtime).session is Some,
        old(runtime).session->0.deadline matches Some(deadline) ==> now < deadline,
    ensures
        final(runtime).next_session_id == old(runtime).next_session_id,
        ({
            let first_missed = match old(runtime).session->0.target_missing_since {
                Some(earlier) => earlier,
                None => seen_at,
            };
            if seen_at < first_missed + 15_000_000_000 {
                &&& final(runtime).session is Some
                &&& final(runtime).session->0 == (ThemeSession {
                    target_missing_since: Some(first_missed),
                    ..old(runtime).session->0
                })
                &&& told is Some
                &&& tells(told->0, old(runtime).session->0.report)
            } else {
                final(runtime).session is None && told is None
            }
        }),
{
    if told is Some {
        lemma_told(told->0, old(runtime).session->0.report);
    }
}

/// A session ends, and nothing is told of it, when its time is up or its application has ended; and
/// where there is no session, a look at the application does not make one.
pub proof fn preview_ends_with_its_time_or_its_application(
    runtime: &mut ThemeRuntime,
    now: u128,
    sighting: Sighting,
    seen_at: u128,
    told: Option<ThemePreviewReport>,
)
    requires
        call_ensures(ThemeRuntime::current_preview, (runtime, now, sighting, seen_at), told),
        old(runtime).session matches Some(session) ==> sighting == Sighting::Exited || (
        session.deadline matches Some(deadline) && deadline <= now),
    ensures
        final(runtime).next_session_id == old(runtime).next_session_id,
        final(runtime).session is None,
        told is None,
{
}

/// The theme of a preview is that of what is told of it, and a look for the one does to the session
/// what a look for the other does.
pub proof fn theme_id_is_that_of_the_preview(
    runtime: &mut ThemeRuntime,
    twin: &mut ThemeRuntime,
    now: u128,
    sighting: Sighting,
    seen_at: u128,
    theme_id: Option<String>,
    told: Option<ThemePreviewReport>,
)
    requires
        *old(runtime) == *old(twin),
        call_ensures(ThemeRuntime::current_theme_id, (runtime, now, sighting, seen_at), theme_id),
        call_ensures(ThemeRuntime::current_preview, (twin, now, sighting, seen_at), told),
    ensures
        *final(runtime) == *final(twin),
        theme_id is Some <==> told is Some,
        theme_id is Some ==> theme_id->0@ == told->0.theme_id@,
{
}

/// Before the application of a session is looked at, its time must not be up, and it is looked at on
/// the port of the session.
pub proof fn check_goes_by_the_deadline(runtime: ThemeRuntime, now: u128, check: PreviewCheck)
    requires
        call_ensures(ThemeRuntime::preview_check, (&runtime, now), check),
    ensures
        runtime.session is None <==> check is Absent,
        runtime.session matches Some(session) && (session.deadline matches Some(deadline)
            && deadline <= now) <==> check is Expired,
        check matches PreviewCheck::Look { port } ==> runtime.session matches Some(session)
            && session.port == port,
{
}

/// Sessions are numbered one after the other, and begin again at zero behind the largest number;
/// the first one of all has the number one.
pub proof fn sessions_are_numbered_in_order(runtime: &mut ThemeRuntime, id: u64, fresh: ThemeRuntime)
    requires
        call_ensures(ThemeRuntime::take_session_id, (runtime,), id),
        call_ensures(ThemeRuntime::default, (), fresh),
    ensures
        id == old(runtime).next_session_id,
        id < u64::MAX ==> final(runtime).next_session_id == id + 1,
        id == u64::MAX ==> final(runtime).next_session_id == 0,
        final(runtime).session == old(runtime).session,
        fresh.session is None,
        fresh.next_session_id == 1,
{
}

/// A session begins only where none is running, and leaves a running one as it is.
pub proof fn running_session_is_not_replaced(
    runtime: &mut ThemeRuntime,
    session: ThemeSession,
    begun: Result<(), CodexError>,
)
    requires
        call_ensures(ThemeRuntime::begin, (runtime, session), begun),
    ensures
        begun is Ok <==> old(runtime).session is None,
        old(runtime).session is None ==> final(runtime).session == Some(session),
        old(runtime).session is Some ==> final(runtime).session == old(runtime).session,
        begun matches Err(error) ==> error@ == "主题预览启动发生并发冲突"@,
        final(runtime).next_session_id == old(runtime).next_session_id,
{
}

/// The lease of a theme is renewed on the port of its session, by the first command on a channel,
/// which evaluates the renewal for that session, for fifteen seconds. Without a session nothing is
/// asked.
pub proof fn renewal_asks_the_page_of_the_session(
    runtime: ThemeRuntime,
    request: Option<PageRequest>,
    expression: String,
)
    requires
        call_ensures(ThemeRuntime::renew_page_lease, (&runtime,), request),
        runtime.session matches Some(session) ==> call_ensures(
            renew_theme_lease_expression,
            (session.id, 15_000),
            expression,
        ),
    ensures
        request is Some <==> runtime.session is Some,
        request is Some ==> asks_page(request->0, runtime.session->0.port, expression@),
{
}

/// The language of a theme is changed on the port of its session, by the first command on a channel,
/// which evaluates the change for that session. Without a session nothing is asked.
pub proof fn locale_change_asks_the_page_of_the_session(
    runtime: ThemeRuntime,
    locale: &str,
    request: Option<PageRequest>,
    expression: String,
)
    requires
        call_ensures(sync_theme_locale, (&runtime, locale), request),
        runtime.session matches Some(session) ==> call_ensures(
            sync_locale_expression,
            (session.id, locale),
            expression,
        ),
    ensures
        request is Some <==> runtime.session is Some,
        request is Some ==> asks_page(request->0, runtime.session->0.port, expression@),
{
}

/// Whether a request goes to a port, and its command reads, under the number one, as the evaluation
/// of an expression whose value is awaited and given back.
pub open spec fn asks_page(request: PageRequest, port: u16, expression: Seq<char>) -> bool {
    &&& request.port == port
    &&& request.command_id == 1
    &&& json_parsed(request.command@) == Ok::<JsonTree, Seq<char>>(
        JsonTree::Object(
            map![
                "id"@ => JsonTree::Number(Some(1), decimal(1)),
                "method"@ => JsonTree::Text("Runtime.evaluate"@),
                "params"@ => JsonTree::Object(
                    map![
                        "expression"@ => JsonTree::Text(expression),
                        "returnByValue"@ => JsonTree::Bool(true),
                        "awaitPromise"@ => JsonTree::Bool(true),
                    ],
                ),
            ],
        ),
    )
}

/// A request to the page comes to what the page has said or to the failure on the way to it, and to
/// nothing where there is no session or no page.
pub proof fn request_comes_to_what_the_page_says(
    event: PageEvent,
    told: Result<bool, CodexError>,
)
    requires
        call_ensures(page_outcome, (event,), told),
    ensures
        event is NoSession || event is PageMissing ==> told is Ok && !told->Ok_0,
        event matches PageEvent::LookFailed(error) ==> told is Err && told->Err_0 == error,
        event matches PageEvent::Evaluated(evaluated) ==> told == evaluated,
{
}

/// A preview was stopped where there was one, unless its page was there and its theme was not taken
/// off; then what came of that is told.
pub proof fn stop_comes_to_what_became_of_the_theme(
    event: Option<StopEvent>,
    told: Result<bool, CodexError>,
)
    requires
        call_ensures(stop_outcome, (event,), told),
    ensures
        event is None ==> told is Ok && !told->Ok_0,
        event matches Some(StopEvent::Exited) ==> told is Ok && told->Ok_0,
        event matches Some(StopEvent::PageMissing) ==> told is Ok && told->Ok_0,
        event matches Some(StopEvent::Removed(removed)) ==> told == removed,
{
}

/// A preview that is asked for ends when it was asked to: never, at its second, or so many seconds
/// after its theme was loaded, but no later than a `u64` can say.
pub proof fn plan_ends_as_asked(plan: PreviewPlan, loaded_at: u64, expires_at: Option<u64>)
    requires
        call_ensures(PreviewPlan::expires_at, (&plan, loaded_at), expires_at),
    ensures
        plan.end is Never <==> expires_at is None,
        plan.end matches PreviewEnd::At(second) ==> expires_at == Some(second),
        plan.end matches PreviewEnd::After(seconds) && loaded_at + seconds <= u64::MAX
            ==> expires_at is Some && expires_at->0 - loaded_at == plan.end->After_0,
        plan.end matches PreviewEnd::After(seconds) && loaded_at + seconds > u64::MAX ==> expires_at
            == Some(u64::MAX),
{
}

/// The preview of an installed theme is planned only where a look at the running one leaves none,
/// and as asked.
pub proof fn installed_preview_is_planned_where_none_runs(
    runtime: &mut ThemeRuntime,
    twin: &mut ThemeRuntime,
    now: u128,
    sighting: Sighting,
    seen_at: u128,
    expires_at: Option<u64>,
    plan: Result<PreviewPlan, CodexError>,
    told: Option<ThemePreviewReport>,
)
    requires
        *old(runtime) == *old(twin),
        call_ensures(
            start_theme_preview_until,
            (runtime, now, sighting, seen_at, expires_at),
            plan,
        ),
        call_ensures(ThemeRuntime::current_preview, (twin, now, sighting, seen_at), told),
    ensures
        *final(runtime) == *final(twin),
        told is None <==> plan is Ok,
        plan matches Ok(planned) ==> planned.source == ThemePreviewSource::Installed
            && match expires_at {
            Some(second) => planned.end == PreviewEnd::At(second),
            None => planned.end == PreviewEnd::Never,
        },
        plan matches Err(error) ==> error@ == "已有主题预览正在运行，请先恢复当前主题"@,
{
}

/// The preview of a theme in development is planned only where a look at the running one leaves
/// none, and as asked.
pub proof fn development_preview_is_planned_where_none_runs(
    runtime: &mut ThemeRuntime,
    twin: &mut ThemeRuntime,
    now: u128,
    sighting: Sighting,
    seen_at: u128,
    duration: Option<u64>,
    plan: Result<PreviewPlan, CodexError>,
    told: Option<ThemePreviewReport>,
)
    requires
        *old(runtime) == *old(twin),
        call_ensures(
            start_development_theme_preview,
            (runtime, now, sighting, seen_at, duration),
            plan,
        ),
        call_ensures(ThemeRuntime::current_preview, (twin, now, sighting, seen_at), told),
    ensures
        *final(runtime) == *final(twin),
        told is None <==> plan is Ok,
        plan matches Ok(planned) ==> planned.source == ThemePreviewSource::LocalDevelopment
            && match duration {
            Some(seconds) => planned.end == PreviewEnd::After(seconds),
            None => planned.end == PreviewEnd::Never,
        },
        plan matches Err(error) ==> error@ == "已有主题预览正在运行，请先恢复当前主题"@,
{
}

/// A session is prepared with the next number, and with the seconds from now to its end, if it has
/// one. Only one whose end has come is refused.
pub proof fn session_has_the_time_up_to_its_end(
    runtime: &mut ThemeRuntime,
    plan: PreviewPlan,
    loaded_at: u64,
    unix_now: u64,
    expires_at: Option<u64>,
    ticket: Result<SessionTicket, CodexError>,
)
    requires
        call_ensures(prepare_session, (runtime, &plan, loaded_at, unix_now), ticket),
        call_ensures(PreviewPlan::expires_at, (&plan, loaded_at), expires_at),
    ensures
        final(runtime).session == old(runtime).session,
        old(runtime).next_session_id < u64::MAX ==> final(runtime).next_session_id == old(
            runtime,
        ).next_session_id + 1,
        ticket is Err <==> expires_at is Some && expires_at->0 <= unix_now,
        ticket matches Err(error) ==> error@ == "主题授权或试用已到期"@,
        ticket matches Ok(made) ==> {
            &&& made.id == old(runtime).next_session_id
            &&& made.source == plan.source
            &&& made.expires_at == expires_at
            &&& made.remaining is Some <==> expires_at is Some
            &&& made.remaining is Some ==> unix_now + made.remaining->0 == expires_at->0
        },
{
}

/// A session starts where none is running, under its number, on the port of the application, with
/// its page in sight, and ends as many seconds from now as it has. What is told of it is what is
/// known of the theme, of the application and of the session.
pub proof fn started_preview_is_told_as_applied(
    runtime: &mut ThemeRuntime,
    ticket: SessionTicket,
    applied: AppliedTheme,
    now: u128,
    started: Result<ThemePreviewReport, CodexError>,
)
    requires
        call_ensures(start_theme_package_preview, (runtime, &ticket, applied, now), started),
    ensures
        final(runtime).next_session_id == old(runtime).next_session_id,
        started is Ok <==> old(runtime).session is None,
        started is Err ==> final(runtime).session == old(runtime).session
            && started->Err_0@ == "主题预览启动发生并发冲突"@,
        started matches Ok(told) ==> {
            &&& told.theme_id@ == applied.theme_id@
            &&& told.theme@ == applied.theme@
            &&& told.source == ticket.source
            &&& told.expires_at == ticket.expires_at
            &&& told.app_version@ == applied.app_version@
            &&& told.port == applied.port
            &&& told.loopback_only == applied.loopback_only
            &&& string_views(told.applied_slots@) == string_views(applied.applied_slots@)
            &&& final(runtime).session is Some
            &&& final(runtime).session->0.id == ticket.id
            &&& final(runtime).session->0.port == applied.port
            &&& final(runtime).session->0.target_missing_since is None
            &&& tells(told, final(runtime).session->0.report)
            &&& ticket.remaining is None ==> final(runtime).session->0.deadline is None
            &&& ticket.remaining matches Some(seconds) ==> final(runtime).session->0.deadline
                == Some((now + seconds * 1_000_000_000) as u128)
        },
{
    if let Ok(told) = started {
        lemma_told(told, final(runtime).session->0.report);
    }
}

/// A preview that is stopped is given out and gone; one that is stopped by its number only where
/// that is its number, and else goes on.
pub proof fn stopped_preview_is_given_out(
    runtime: &mut ThemeRuntime,
    twin: &mut ThemeRuntime,
    session_id: u64,
    stopped: Option<ThemeSession>,
    matching: Option<ThemeSession>,
)
    requires
        call_ensures(stop_theme_preview, (runtime,), stopped),
        call_ensures(stop_theme_preview_if_session, (twin, session_id), matching),
        *old(twin) == *old(runtime),
    ensures
        stopped == old(runtime).session,
        final(runtime).session is None,
        final(runtime).next_session_id == old(runtime).next_session_id,
        final(twin).next_session_id == old(twin).next_session_id,
        stopped is Some && stopped->0.id == session_id ==> matching == stopped
            && final(twin).session is None,
        stopped is None || stopped->0.id != session_id ==> matching is None && final(twin).session
            == stopped,
{
}

} // verus!
