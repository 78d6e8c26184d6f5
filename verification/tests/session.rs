//! The preview of a theme and what becomes of it.
use retheme_codex::clock::{
    clock_seconds, expiry_after, remaining_at, remaining_until, unix_time,
};
use retheme_codex::devtools::{find_codex_target, DevToolsTarget};
use retheme_codex::devtools_http::{read_response, ResponseStep};
use retheme_codex::error::CodexError;
use retheme_codex::expression::{renew_theme_lease_expression, sync_locale_expression};
use retheme_codex::session::{
    page_outcome, prepare_session, start_development_theme_preview, start_theme_package_preview,
    start_theme_preview_until, stop_outcome, stop_theme_preview, stop_theme_preview_if_session,
    sync_theme_locale, AppliedTheme, PageEvent, PageRequest, PreviewCheck, PreviewEnd, PreviewPlan,
    SessionTicket, Sighting, StopEvent, ThemePreviewReport, ThemePreviewSource, ThemeRuntime,
    ThemeSession,
};
use retheme_codex::startup::startup_slots_ready;

const SECOND: u128 = 1_000_000_000;

fn test_report(port: u16) -> ThemePreviewReport {
    ThemePreviewReport {
        theme_id: "studio.example.test-theme".into(),
        theme: "{\"name\":\"Test\"}".into(),
        source: ThemePreviewSource::Installed,
        expires_at: None,
        app_version: "test".into(),
        port,
        applied_slots: vec!["app.shell".into()],
        loopback_only: true,
    }
}

fn runtime_with_session(port: u16) -> ThemeRuntime {
    let mut runtime = ThemeRuntime::default();
    runtime.session = Some(ThemeSession {
        id: 1,
        port,
        deadline: None,
        target_missing_since: None,
        report: test_report(port),
    });
    runtime
}

fn text(value: &serde_json::Value, key: &str) -> String {
    value.get(key).and_then(|text| text.as_str()).expect("text").to_owned()
}

/// What a response with a list of targets shows of the application on a port.
fn sighting(port: u16, list: &str) -> Sighting {
    let list = list.replace("{port}", &port.to_string());
    let response = format!(
        "HTTP/1.1 200 OK\r\nContent-Length: {}\r\nConnection: close\r\n\r\n{list}",
        list.len()
    );
    let body = match read_response(response.as_bytes(), false) {
        ResponseStep::Complete { start, end } => &response[start..end],
        other => panic!("{other:?}"),
    };
    let parsed: serde_json::Value = serde_json::from_str(body).expect("target list");
    let targets = parsed
        .as_array()
        .expect("list")
        .iter()
        .map(|target| DevToolsTarget {
            title: text(target, "title"),
            target_type: text(target, "type"),
            url: text(target, "url"),
            web_socket_debugger_url: text(target, "webSocketDebuggerUrl"),
        })
        .collect();
    match find_codex_target(targets, port) {
        Some(_) => Sighting::PageFound,
        None => Sighting::PageMissing,
    }
}

#[test]
fn clears_preview_status_after_codex_exits() {
    let mut runtime = runtime_with_session(18926);

    assert!(runtime.current_preview(SECOND, Sighting::Exited, SECOND).is_none());
    assert!(runtime.session.is_none());
}

#[test]
fn keeps_preview_during_brief_target_loss() {
    let mut runtime = runtime_with_session(18926);

    for (look, name) in [(1, "first"), (2, "second"), (3, "third")] {
        let now = look * SECOND;
        let seen = sighting(18926, "[]");
        assert!(runtime.current_preview(now, seen, now).is_some(), "{name} preview status");
    }
    assert!(runtime.session.is_some());
}

#[test]
fn keeps_preview_during_transient_page_transition() {
    let page = r#"[{"title":"Codex","type":"page","url":"app://-/index.html","webSocketDebuggerUrl":"ws://127.0.0.1:{port}/devtools/page/test"}]"#;
    let port = 18926;
    let mut runtime = runtime_with_session(port);

    assert!(runtime.current_preview(SECOND, sighting(port, "[]"), SECOND).is_some());
    assert!(runtime.current_preview(2 * SECOND, sighting(port, page), 2 * SECOND).is_some());
    assert_eq!(
        runtime.session.as_ref().expect("active session").target_missing_since,
        None
    );
}

#[test]
fn lasting_loss_of_the_page_ends_the_preview() {
    let mut runtime = runtime_with_session(18926);

    assert!(runtime.current_preview(SECOND, Sighting::PageMissing, SECOND).is_some());
    let almost = 16 * SECOND - 1;
    assert!(runtime.current_preview(almost, Sighting::PageMissing, almost).is_some());
    let over = 16 * SECOND;
    assert!(runtime.current_preview(over, Sighting::PageMissing, over).is_none());
    assert!(runtime.session.is_none());
}

#[test]
fn stopping_an_exited_codex_session_succeeds() {
    let mut runtime = runtime_with_session(18926);

    let session = stop_theme_preview(&mut runtime);
    assert!(session.is_some());
    assert!(stop_outcome(Some(StopEvent::Exited)).expect("stopping exited preview"));
    assert!(runtime.session.is_none());
}

#[test]
fn stale_expiry_cannot_stop_a_newer_preview_session() {
    let mut runtime = runtime_with_session(18926);

    // Of a session that was ended, the application has exited here.
    let stopped = |session: Option<ThemeSession>| {
        stop_outcome(session.map(|_| StopEvent::Exited)).expect("stopping by number")
    };
    assert!(!stopped(stop_theme_preview_if_session(&mut runtime, 2)));
    assert!(runtime.session.is_some());
    assert!(stopped(stop_theme_preview_if_session(&mut runtime, 1)));
    assert!(runtime.session.is_none());
}

#[test]
fn expired_development_preview_clears_its_session() {
    let mut runtime = runtime_with_session(18926);
    let preview = runtime.session.as_mut().expect("preview session");
    preview.deadline = Some(9 * SECOND);
    preview.report.source = ThemePreviewSource::LocalDevelopment;

    assert_eq!(runtime.preview_check(9 * SECOND), PreviewCheck::Expired);
    assert!(runtime
        .current_preview(10 * SECOND, Sighting::PageFound, 10 * SECOND)
        .is_none());
    assert!(runtime.session.is_none());
}

#[test]
fn the_application_is_looked_at_only_while_a_session_runs() {
    assert_eq!(ThemeRuntime::default().preview_check(0), PreviewCheck::Absent);
    let mut runtime = runtime_with_session(7);
    assert_eq!(runtime.preview_check(u128::MAX), PreviewCheck::Look { port: 7 });
    runtime.session.as_mut().unwrap().deadline = Some(5);
    assert_eq!(runtime.preview_check(4), PreviewCheck::Look { port: 7 });
    assert_eq!(runtime.preview_check(5), PreviewCheck::Expired);
}

#[test]
fn tells_the_theme_of_a_running_preview() {
    let mut runtime = runtime_with_session(7);
    assert_eq!(
        runtime.current_theme_id(1, Sighting::PageFound, 1).as_deref(),
        Some("studio.example.test-theme")
    );
    assert_eq!(runtime.current_theme_id(2, Sighting::Exited, 2), None);
    assert_eq!(runtime.current_theme_id(3, Sighting::PageFound, 3), None);
}

#[test]
fn rejects_expired_absolute_preview_deadline() {
    assert!(remaining_until(unix_time()).is_err());
}

#[test]
fn time_runs_out_at_the_deadline() {
    assert_eq!(remaining_at(10, 4).unwrap(), 6);
    assert_eq!(remaining_at(10, 10).unwrap_err().message(), "主题授权或试用已到期");
    assert!(remaining_at(10, 11).is_err());
    assert!(remaining_until(u64::MAX).unwrap() > 1_000_000);
    assert!(unix_time() > 1_600_000_000);
    assert_eq!(clock_seconds(Some(7)), 7);
    assert_eq!(clock_seconds(None), 0);
    assert_eq!(expiry_after(5, Some(u64::MAX)), Some(u64::MAX));
    assert_eq!(expiry_after(5, Some(6)), Some(11));
    assert_eq!(expiry_after(5, None), None);
}

#[test]
fn a_running_preview_keeps_others_from_starting() {
    let mut runtime = runtime_with_session(7);
    let refused =
        start_theme_preview_until(&mut runtime, 1, Sighting::PageFound, 1, Some(9)).unwrap_err();
    assert_eq!(refused.message(), "已有主题预览正在运行，请先恢复当前主题");
    let refused =
        start_development_theme_preview(&mut runtime, 1, Sighting::PageMissing, 1, Some(6))
            .unwrap_err();
    assert_eq!(refused.message(), "已有主题预览正在运行，请先恢复当前主题");
    assert!(start_theme_preview_until(&mut runtime, 2, Sighting::Exited, 2, None).is_ok());
    assert!(runtime.session.is_none());
}

#[test]
fn previews_end_as_planned() {
    let mut runtime = ThemeRuntime::default();
    let mut installed = |expires_at| {
        start_theme_preview_until(&mut runtime, 1, Sighting::PageMissing, 1, expires_at).unwrap()
    };
    let plan = installed(Some(9));
    assert_eq!(plan.source, ThemePreviewSource::Installed);
    assert_eq!(plan.end, PreviewEnd::At(9));
    assert_eq!(plan.expires_at(5), Some(9));
    assert_eq!(installed(None).expires_at(5), None);
    let mut developed = |duration| {
        start_development_theme_preview(&mut runtime, 1, Sighting::PageMissing, 1, duration)
            .unwrap()
    };
    let plan = developed(Some(6));
    assert_eq!(plan.source, ThemePreviewSource::LocalDevelopment);
    assert_eq!(plan.end, PreviewEnd::After(6));
    assert_eq!(plan.expires_at(5), Some(11));
    assert_eq!(plan.expires_at(u64::MAX - 1), Some(u64::MAX));
    assert_eq!(developed(None).expires_at(5), None);
}

fn plan(end: PreviewEnd) -> PreviewPlan {
    PreviewPlan { source: ThemePreviewSource::LocalDevelopment, end }
}

#[test]
fn sessions_are_numbered_from_one() {
    let mut runtime = ThemeRuntime::default();
    let first = prepare_session(&mut runtime, &plan(PreviewEnd::Never), 0, 0).unwrap();
    assert_eq!((first.id, first.expires_at, first.remaining), (1, None, None));
    assert_eq!(first.source, ThemePreviewSource::LocalDevelopment);
    let late = prepare_session(&mut runtime, &plan(PreviewEnd::At(5)), 3, 5).unwrap_err();
    assert_eq!(late.message(), "主题授权或试用已到期");
    let third = prepare_session(&mut runtime, &plan(PreviewEnd::At(9)), 3, 5).unwrap();
    assert_eq!((third.id, third.expires_at, third.remaining), (3, Some(9), Some(4)));
    let fourth = prepare_session(&mut runtime, &plan(PreviewEnd::After(9)), 3, 5).unwrap();
    assert_eq!((fourth.id, fourth.expires_at, fourth.remaining), (4, Some(12), Some(7)));
    runtime.next_session_id = u64::MAX;
    assert_eq!(runtime.take_session_id(), u64::MAX);
    assert_eq!(runtime.take_session_id(), 0);
}

fn compact_home_slots() -> Vec<String> {
    [
        "view:home-compact",
        "app.shell",
        "titlebar",
        "sidebar",
        "main",
        "composer",
        "composer.editor",
        "composer.submit",
        "composer.submit.icon",
        "home.layout",
        "composer.region",
    ]
    .into_iter()
    .map(String::from)
    .collect()
}

fn applied(port: u16) -> AppliedTheme {
    AppliedTheme {
        theme_id: "studio.example.test-theme".into(),
        theme: "{}".into(),
        app_version: "26.1".into(),
        port,
        applied_slots: compact_home_slots(),
        loopback_only: true,
    }
}

#[test]
fn a_started_preview_runs_until_its_deadline() {
    assert!(startup_slots_ready(&compact_home_slots()));
    let mut runtime = ThemeRuntime::default();
    let ticket = SessionTicket {
        id: 4,
        source: ThemePreviewSource::LocalDevelopment,
        expires_at: Some(77),
        remaining: Some(2),
    };
    let told = start_theme_package_preview(&mut runtime, &ticket, applied(8), 3).unwrap();
    assert_eq!(told.theme_id, "studio.example.test-theme");
    assert_eq!(told.theme, "{}");
    assert_eq!(told.source, ThemePreviewSource::LocalDevelopment);
    assert_eq!(told.expires_at, Some(77));
    assert_eq!(told.app_version, "26.1");
    assert_eq!(told.port, 8);
    assert_eq!(told.applied_slots, compact_home_slots());
    assert!(told.loopback_only);
    let session = runtime.session.as_ref().unwrap();
    assert_eq!(session.id, 4);
    assert_eq!(session.port, 8);
    assert_eq!(session.deadline, Some(2 * SECOND + 3));
    assert_eq!(session.target_missing_since, None);
    assert_eq!(format!("{:?}", session.report), format!("{told:?}"));

    let other = SessionTicket {
        id: 5,
        source: ThemePreviewSource::Installed,
        expires_at: None,
        remaining: None,
    };
    let conflict = start_theme_package_preview(&mut runtime, &other, applied(9), 3);
    assert_eq!(conflict.unwrap_err().message(), "主题预览启动发生并发冲突");
    assert_eq!(runtime.session.as_ref().unwrap().id, 4);

    stop_theme_preview(&mut runtime);
    let told = start_theme_package_preview(&mut runtime, &other, applied(9), 3).unwrap();
    assert_eq!(told.source, ThemePreviewSource::Installed);
    assert_eq!(told.expires_at, None);
    assert_eq!(runtime.session.as_ref().unwrap().deadline, None);
}

#[test]
fn a_stopped_preview_is_stopped_unless_its_page_keeps_the_theme() {
    assert!(!stop_outcome(None).unwrap());
    assert!(stop_outcome(Some(StopEvent::PageMissing)).unwrap());
    assert!(!stop_outcome(Some(StopEvent::Removed(Ok(false)))).unwrap());
    let failed = stop_outcome(Some(StopEvent::Removed(Err(CodexError::new("no")))));
    assert_eq!(failed.unwrap_err().message(), "no");
}

fn asked_expression(request: Option<PageRequest>, port: u16) -> String {
    let request = request.expect("request");
    assert_eq!(request.port, port);
    assert_eq!(request.command_id, 1);
    let command: serde_json::Value = serde_json::from_str(&request.command).expect("command");
    assert_eq!(command["id"].as_u64(), Some(1));
    assert_eq!(command["method"].as_str(), Some("Runtime.evaluate"));
    assert_eq!(command["params"]["returnByValue"].as_bool(), Some(true));
    assert_eq!(command["params"]["awaitPromise"].as_bool(), Some(true));
    text(&command["params"], "expression")
}

#[test]
fn lease_and_language_go_to_the_page_of_the_session() {
    assert!(ThemeRuntime::default().renew_page_lease().is_none());
    assert!(sync_theme_locale(&ThemeRuntime::default(), "zh").is_none());
    let runtime = runtime_with_session(7);
    assert_eq!(
        asked_expression(runtime.renew_page_lease(), 7),
        renew_theme_lease_expression(1, 15_000)
    );
    assert_eq!(
        asked_expression(sync_theme_locale(&runtime, "zh"), 7),
        sync_locale_expression(1, "zh")
    );
}

#[test]
fn a_request_comes_to_what_the_page_says() {
    assert!(!page_outcome(PageEvent::NoSession).unwrap());
    assert!(!page_outcome(PageEvent::PageMissing).unwrap());
    let failed = page_outcome(PageEvent::LookFailed(CodexError::new("no list")));
    assert_eq!(failed.unwrap_err().message(), "no list");
    assert!(page_outcome(PageEvent::Evaluated(Ok(true))).unwrap());
    assert!(!page_outcome(PageEvent::Evaluated(Ok(false))).unwrap());
    let failed = page_outcome(PageEvent::Evaluated(Err(CodexError::new("no value"))));
    assert_eq!(failed.unwrap_err().message(), "no value");
}

#[test]
fn a_copy_of_a_report_tells_the_same() {
    let report = test_report(7);
    assert_eq!(format!("{:?}", report.clone()), format!("{report:?}"));
}
