//! Expressions that the page evaluates.
use retheme_codex::expression::{
    apply_theme_expression, renew_theme_lease_expression, sync_locale_expression,
    whole_apply_theme_template, ThemeApplication, ThemePackage,
};
use retheme_codex::page_script::{
    PAGE_LEASE_CONTROLLER_FUNCTION, PAGE_RESTORE_THEME_FUNCTION, PROBE_APPLY_EXPRESSION,
    PROBE_REMOVE_EXPRESSION,
};
use retheme_codex::platform::Platform;
use retheme_codex::platform_css::{
    platform_runtime_css, PLATFORM_RUNTIME_CSS, WINDOWS_PLATFORM_RUNTIME_CSS,
};
use retheme_codex::template::{render, Binding};
use retheme_codex::timing::{
    PAGE_LEASE_DURATION, PAGE_LEASE_RENEW_INTERVAL, THEME_CHANNEL_IO_TIMEOUT,
};

#[test]
fn page_lease_renewal_is_bound_to_session_and_hard_deadline() {
    let expression = renew_theme_lease_expression(42, 15_000);

    assert!(expression.contains("runtime.sessionId !== 42"));
    assert!(expression.contains("now + 15000"));
    assert!(expression.contains("runtime.hardExpiresAt && now >= runtime.hardExpiresAt"));
    assert!(expression.contains("Math.min("));
    assert!(expression.contains("runtime.restoreTheme?.(runtime.sessionId, true)"));
}

#[test]
fn page_lease_renewal_is_one_expression() {
    assert_eq!(
        renew_theme_lease_expression(0, 1),
        r#"(() => {
          const runtime = window.__codexThemeRuntime;
          if (!runtime || runtime.sessionId !== 0) return false;
          const now = Date.now();
          if (runtime.hardExpiresAt && now >= runtime.hardExpiresAt) {
            runtime.restoreTheme?.(runtime.sessionId, true);
            return false;
          }
          runtime.leaseExpiresAt = Math.min(
            now + 1,
            runtime.hardExpiresAt ?? Number.POSITIVE_INFINITY
          );
          return true;
        })()"#
    );
}

#[test]
fn page_lease_timing_keeps_recovery_margin() {
    assert!(PAGE_LEASE_RENEW_INTERVAL < PAGE_LEASE_DURATION);
    assert!(PAGE_LEASE_RENEW_INTERVAL + THEME_CHANNEL_IO_TIMEOUT < PAGE_LEASE_DURATION);
}

#[test]
fn locale_change_is_bound_to_its_session() {
    assert_eq!(
        sync_locale_expression(7, "zh_TW"),
        r#"(() => {
          const runtime = window.__codexThemeRuntime;
          if (!runtime || runtime.sessionId !== 7 || !runtime.syncLocale) return false;
          return runtime.syncLocale("zh-CN");
        })()"#
    );
    assert!(sync_locale_expression(8, "fr").contains("runtime.syncLocale(\"en\")"));
}

fn package() -> ThemePackage {
    ThemePackage {
        id: "studio.example.\"test\"".to_owned(),
        version: "1.2.3".to_owned(),
        css: "a { color: red; }\n\t\u{1}/* {theme_id} }} */".to_owned(),
    }
}

fn application<'a>(
    runtime_config: &'a serde_json::Value,
    expires_at: Option<u64>,
) -> ThemeApplication<'a> {
    ThemeApplication {
        runtime_config,
        revoke_assets_url: "http://127.0.0.1:1/t/revoke",
        adapter_config: "{\"selectors\":{}}",
        session_id: 9,
        expires_at,
        has_pro: true,
        locale: "ZH-hk",
    }
}

#[test]
fn applies_a_theme_with_its_own_values() {
    let config = serde_json::from_str("{\"b\": 1, \"a\": [true, null]}").unwrap();
    let expression =
        apply_theme_expression(&package(), &application(&config, Some(5)), Platform::Other);

    assert!(expression.starts_with("(() => {\n"));
    assert!(expression.ends_with("})()"));
    assert!(expression.contains("const baseConfig = {\"a\":[true,null],\"b\":1};"));
    assert!(expression.contains("let requestedLocale = \"zh-CN\";"));
    assert!(expression.contains("const adapter = {\"selectors\":{}};"));
    assert!(expression.contains("const hasPro = true;"));
    assert!(expression.contains("const themeVersion = \"1.2.3\";"));
    assert!(expression.contains("const sessionId = 9;"));
    assert!(expression.contains("const revokeAssetsUrl = \"http://127.0.0.1:1/t/revoke\";"));
    assert!(expression.contains("const hardExpiresAt = 5000;"));
    assert!(expression.contains("const pageLeaseMilliseconds = 15000;"));
    assert!(expression.contains(PAGE_RESTORE_THEME_FUNCTION));
    assert!(expression.contains(PAGE_LEASE_CONTROLLER_FUNCTION));
    assert!(expression.contains("\"studio.example.\\\"test\\\"\""));
    assert!(expression.contains("\"a { color: red; }\\n\\t\\u0001/* {theme_id} }} */\""));
    assert!(expression.contains("v${themeVersion}"));
    for name in ["runtime_config", "adapter_config", "session_id", "platform_css", "has_pro"] {
        assert!(!expression.contains(&format!("{{{name}}}")), "{name} is left");
    }
}

#[test]
fn a_theme_without_an_end_has_no_hard_deadline() {
    let config = serde_json::Value::Null;
    let never = apply_theme_expression(&package(), &application(&config, None), Platform::MacOs);
    assert!(never.contains("const hardExpiresAt = null;"));
    let late =
        apply_theme_expression(&package(), &application(&config, Some(u64::MAX)), Platform::MacOs);
    assert!(late.contains("const hardExpiresAt = 18446744073709551615;"));
    let last = apply_theme_expression(
        &package(),
        &application(&config, Some(18446744073709551)),
        Platform::MacOs,
    );
    assert!(last.contains("const hardExpiresAt = 18446744073709551000;"));
}

#[test]
fn only_windows_adds_its_own_style() {
    assert_eq!(platform_runtime_css(Platform::MacOs), PLATFORM_RUNTIME_CSS);
    assert_eq!(platform_runtime_css(Platform::Other), PLATFORM_RUNTIME_CSS);
    assert_eq!(
        platform_runtime_css(Platform::Windows),
        format!("{PLATFORM_RUNTIME_CSS}\n{WINDOWS_PLATFORM_RUNTIME_CSS}")
    );
}

#[test]
fn the_template_is_one_balanced_expression() {
    let template = whole_apply_theme_template();
    assert!(template.starts_with("(() => {{\n          const baseConfig = {runtime_config};"));
    assert!(template.ends_with("return slots;\n        }})()"));
    assert!(PROBE_APPLY_EXPRESSION.contains("--ct-smoke-probe"));
    assert!(PROBE_REMOVE_EXPRESSION.contains("codex-theme-smoke-probe"));
}

fn binding(name: &str, value: &str) -> Binding {
    Binding { name: name.to_owned(), value: value.to_owned() }
}

#[test]
fn templates_put_values_in_as_they_are() {
    let values = [binding("a", "{b}}}"), binding("b", "2"), binding("a", "later")];
    assert_eq!(render("x{a}y{b}z", &values), "x{b}}}y2z");
    assert_eq!(render("{{a}} }}{{", &values), "{a} }{");
    assert_eq!(render("{{{b}}}", &values), "{2}");
    assert_eq!(render("", &values), "");
}

#[test]
fn a_brace_without_a_bound_name_stands_for_itself() {
    let values = [binding("a", "1")];
    assert_eq!(render("{c} { a} {", &values), "{c} { a} {");
    assert_eq!(render("} {a", &values), "} {a");
}
