//! Expressions that the page of the themed window evaluates.
use vstd::prelude::*;

use crate::decimal::{decimal, decimal_chars};
use crate::json::{json_printed, json_quoted, json_tree, print_json, quote_json};
use crate::locale::{chinese_locales_begin_with_zh, normalize_theme_locale, theme_locale};
use crate::page_script::{
    APPLY_THEME_ASSETS, APPLY_THEME_COMPOSER, APPLY_THEME_CONVERSATION, APPLY_THEME_HEALTH,
    APPLY_THEME_HERO, APPLY_THEME_LAYOUT, APPLY_THEME_LEASE, APPLY_THEME_LOCALE,
    APPLY_THEME_RUNTIME, APPLY_THEME_SESSION, APPLY_THEME_SETTINGS, APPLY_THEME_SETUP,
    APPLY_THEME_SHELL, APPLY_THEME_SIDEBAR, APPLY_THEME_SLOTS, APPLY_THEME_STATUS,
    APPLY_THEME_STYLE, APPLY_THEME_VERSIONS, PAGE_LEASE_CONTROLLER_FUNCTION,
    PAGE_RESTORE_THEME_FUNCTION, RENEW_LEASE_DURATION,
    RENEW_LEASE_END, RENEW_LEASE_SESSION, SYNC_LOCALE_END, SYNC_LOCALE_LANGUAGE,
    SYNC_LOCALE_SESSION,
};
use crate::platform::Platform;
use crate::platform_css::{platform_css, platform_runtime_css};
use crate::template::{
    binding_views, bound_value, distinct_names_keep_their_values, parts_render_on_their_own,
    placeholder_renders_to_its_value, plain_text_renders_to_itself, render, rendered, Binding,
};
use crate::text::{chars_of, push_text, text_of};
use crate::timing::PAGE_LEASE_DURATION;

verus! {

/// What the engine reads of a theme package.
#[derive(Debug)]
pub struct ThemePackage {
    pub id: String,
    pub version: String,
    pub css: String,
}

/// How a theme is applied to the page.
pub struct ThemeApplication<'a> {
    pub runtime_config: &'a serde_json::Value,
    pub revoke_assets_url: &'a str,
    /// The adapter to the version of the application, as JSON.
    pub adapter_config: &'a str,
    pub session_id: u64,
    /// When the theme ends, in seconds since 1970.
    pub expires_at: Option<u64>,
    pub has_pro: bool,
    pub locale: &'a str,
}

/// The text of a number.
fn number_text(number: u128) -> (result: String)
    ensures
        result@ == decimal(number as nat),
{
    text_of(decimal_chars(number).as_slice())
}

/// The text of a truth value.
pub open spec fn flag(value: bool) -> Seq<char> {
    if value {
        "true"@
    } else {
        "false"@
    }
}

fn flag_text(value: bool) -> (result: String)
    ensures
        result@ == flag(value),
{
    if value {
        "true".to_owned()
    } else {
        "false".to_owned()
    }
}

/// The end of a theme as a JSON value, in milliseconds as far as a `u64` reaches.
pub open spec fn hard_deadline(expires_at: Option<u64>) -> Seq<char> {
    match expires_at {
        Some(seconds) => if seconds * 1000 > u64::MAX {
            decimal(u64::MAX as nat)
        } else {
            decimal((seconds * 1000) as nat)
        },
        None => "null"@,
    }
}

fn hard_deadline_text(expires_at: Option<u64>) -> (result: String)
    ensures
        result@ == hard_deadline(expires_at),
{
    match expires_at {
        Some(seconds) => {
            if seconds > u64::MAX / 1000 {
                number_text(u64::MAX as u128)
            } else {
                number_text((seconds * 1000) as u128)
            }
        },
        None => "null".to_owned(),
    }
}

/// A text as a JSON string.
fn quoted_text(text: &str) -> (result: String)
    ensures
        result@ == json_quoted(text@),
{
    quote_json(text).unwrap()
}

fn bind(name: &str, value: String) -> (result: Binding)
    ensures
        result.name@ == name@,
        result.value == value,
{
    Binding { name: name.to_owned(), value }
}

/// The template of the expression that puts a theme on the page.
pub open spec fn apply_theme_template() -> Seq<char> {
    APPLY_THEME_SETUP@ + APPLY_THEME_LOCALE@ + APPLY_THEME_VERSIONS@ + APPLY_THEME_SESSION@
        + APPLY_THEME_LEASE@ + APPLY_THEME_STATUS@
        + APPLY_THEME_ASSETS@ + APPLY_THEME_SETTINGS@ + APPLY_THEME_LAYOUT@
        + APPLY_THEME_CONVERSATION@ + APPLY_THEME_HERO@ + APPLY_THEME_SHELL@ + APPLY_THEME_STYLE@
        + APPLY_THEME_SLOTS@ + APPLY_THEME_SIDEBAR@ + APPLY_THEME_COMPOSER@ + APPLY_THEME_HEALTH@
        + APPLY_THEME_RUNTIME@
}

/// The template of the expression that puts a theme on the page.
pub fn whole_apply_theme_template() -> (result: String)
    ensures
        result@ == apply_theme_template(),
{
    let mut template = chars_of(APPLY_THEME_SETUP);
    push_text(&mut template, APPLY_THEME_LOCALE);
    push_text(&mut template, APPLY_THEME_VERSIONS);
    push_text(&mut template, APPLY_THEME_SESSION);
    push_text(&mut template, APPLY_THEME_LEASE);
    push_text(&mut template, APPLY_THEME_STATUS);
    push_text(&mut template, APPLY_THEME_ASSETS);
    push_text(&mut template, APPLY_THEME_SETTINGS);
    push_text(&mut template, APPLY_THEME_LAYOUT);
    push_text(&mut template, APPLY_THEME_CONVERSATION);
    push_text(&mut template, APPLY_THEME_HERO);
    push_text(&mut template, APPLY_THEME_SHELL);
    push_text(&mut template, APPLY_THEME_STYLE);
    push_text(&mut template, APPLY_THEME_SLOTS);
    push_text(&mut template, APPLY_THEME_SIDEBAR);
    push_text(&mut template, APPLY_THEME_COMPOSER);
    push_text(&mut template, APPLY_THEME_HEALTH);
    push_text(&mut template, APPLY_THEME_RUNTIME);
    text_of(template.as_slice())
}

/// What stands for each placeholder of the expression that puts a theme on the page.
pub open spec fn apply_theme_values(
    package: ThemePackage,
    application: ThemeApplication,
    platform: Platform,
) -> Seq<(Seq<char>, Seq<char>)> {
    seq![
        ("runtime_config"@, json_printed(json_tree(*application.runtime_config))),
        ("locale"@, json_quoted(theme_locale(application.locale@))),
        ("adapter_config"@, application.adapter_config@),
        ("has_pro"@, flag(application.has_pro)),
        ("theme_version"@, json_quoted(package.version@)),
        ("session_id"@, decimal(application.session_id as nat)),
        ("revoke_assets_url"@, json_quoted(application.revoke_assets_url@)),
        ("hard_expires_at"@, hard_deadline(application.expires_at)),
        ("page_lease_milliseconds"@, decimal(PAGE_LEASE_DURATION as nat)),
        ("restore_theme_function"@, PAGE_RESTORE_THEME_FUNCTION@),
        ("lease_controller_function"@, PAGE_LEASE_CONTROLLER_FUNCTION@),
        ("css"@, json_quoted(package.css@)),
        ("platform_css"@, json_quoted(platform_css(platform))),
        ("theme_id"@, json_quoted(package.id@)),
    ]
}

/// The expression that puts a theme on the page and gives the slots that it found there.
pub fn apply_theme_expression(
    package: &ThemePackage,
    application: &ThemeApplication,
    platform: Platform,
) -> (result: String)
    ensures
        result@ == rendered(
            apply_theme_template(),
            apply_theme_values(*package, *application, platform),
        ),
{
    let mut values: Vec<Binding> = Vec::new();
    values.push(bind("runtime_config", print_json(application.runtime_config)));
    values.push(bind("locale", quoted_text(normalize_theme_locale(application.locale))));
    values.push(bind("adapter_config", application.adapter_config.to_owned()));
    values.push(bind("has_pro", flag_text(application.has_pro)));
    values.push(bind("theme_version", quoted_text(package.version.as_str())));
    values.push(bind("session_id", number_text(application.session_id as u128)));
    values.push(bind("revoke_assets_url", quoted_text(application.revoke_assets_url)));
    values.push(bind("hard_expires_at", hard_deadline_text(application.expires_at)));
    values.push(bind("page_lease_milliseconds", number_text(PAGE_LEASE_DURATION as u128)));
    values.push(bind("restore_theme_function", PAGE_RESTORE_THEME_FUNCTION.to_owned()));
    values.push(bind("lease_controller_function", PAGE_LEASE_CONTROLLER_FUNCTION.to_owned()));
    values.push(bind("css", quoted_text(package.css.as_str())));
    values.push(bind("platform_css", quoted_text(platform_runtime_css(platform).as_str())));
    values.push(bind("theme_id", quoted_text(package.id.as_str())));
    assert(binding_views(values@) =~= apply_theme_values(*package, *application, platform));
    render(whole_apply_theme_template().as_str(), values.as_slice())
}

/// The expression that renews the lease of a session's theme.
pub open spec fn renewal_of(session_id: u64, milliseconds: nat) -> Seq<char> {
    RENEW_LEASE_SESSION@ + decimal(session_id as nat) + RENEW_LEASE_DURATION@ + decimal(
        milliseconds,
    ) + RENEW_LEASE_END@
}

/// The expression that switches the language of a session's theme.
pub open spec fn locale_change_of(session_id: u64, locale: Seq<char>) -> Seq<char> {
    SYNC_LOCALE_SESSION@ + decimal(session_id as nat) + SYNC_LOCALE_LANGUAGE@ + json_quoted(
        theme_locale(locale),
    ) + SYNC_LOCALE_END@
}

/// The expression that renews the lease of a session's theme.
pub fn renew_theme_lease_expression(session_id: u64, milliseconds: u128) -> (result: String)
    ensures
        result@ == renewal_of(session_id, milliseconds as nat),
{
    let mut expression = chars_of(RENEW_LEASE_SESSION);
    push_text(&mut expression, number_text(session_id as u128).as_str());
    push_text(&mut expression, RENEW_LEASE_DURATION);
    push_text(&mut expression, number_text(milliseconds).as_str());
    push_text(&mut expression, RENEW_LEASE_END);
    text_of(expression.as_slice())
}

/// The expression that switches the language of a session's theme.
pub fn sync_locale_expression(session_id: u64, locale: &str) -> (result: String)
    ensures
        result@ == locale_change_of(session_id, locale@),
{
    let mut expression = chars_of(SYNC_LOCALE_SESSION);
    push_text(&mut expression, number_text(session_id as u128).as_str());
    push_text(&mut expression, SYNC_LOCALE_LANGUAGE);
    push_text(&mut expression, quoted_text(normalize_theme_locale(locale)).as_str());
    push_text(&mut expression, SYNC_LOCALE_END);
    text_of(expression.as_slice())
}

/// Whether a text holds a part.
pub open spec fn holds(text: Seq<char>, part: Seq<char>) -> bool {
    exists|front: Seq<char>, rest: Seq<char>| text == #[trigger] (front + part + rest)
}

/// A placeholder of a template.
spec fn placeholder_for(name: Seq<char>) -> Seq<char> {
    seq!['{'] + name + seq!['}']
}

spec fn is_literal(text: Seq<char>) -> bool {
    !text.contains('{') && !text.contains('}')
}

spec fn is_name(name: Seq<char>) -> bool {
    name.len() > 0 && is_literal(name)
}

proof fn lemma_line(
    text: Seq<char>,
    name: Seq<char>,
    value: Seq<char>,
    rest: Seq<char>,
    bindings: Seq<(Seq<char>, Seq<char>)>,
)
    requires
        is_literal(text),
        is_name(name),
        bound_value(bindings, name) == Some(value),
    ensures
        rendered(text + placeholder_for(name) + rest, bindings) == text + value + rendered(
            rest,
            bindings,
        ),
{
    assert(name.contains(name[0]));
    plain_text_renders_to_itself(text, placeholder_for(name) + rest, bindings);
    placeholder_renders_to_its_value(name, rest, bindings);
    assert(text + placeholder_for(name) + rest =~= text + (placeholder_for(name) + rest));
    assert(text + (value + rendered(rest, bindings)) =~= text + value + rendered(rest, bindings));
}

proof fn lemma_names()
    ensures
        is_name("runtime_config"@) && !"runtime_config"@.contains(' '),
        is_name("locale"@) && !"locale"@.contains(' '),
        is_name("adapter_config"@) && !"adapter_config"@.contains(' '),
        is_name("has_pro"@) && !"has_pro"@.contains(' '),
        is_name("theme_version"@) && !"theme_version"@.contains(' '),
        is_name("session_id"@) && !"session_id"@.contains(' '),
        is_name("revoke_assets_url"@) && !"revoke_assets_url"@.contains(' '),
        is_name("hard_expires_at"@) && !"hard_expires_at"@.contains(' '),
        is_name("page_lease_milliseconds"@) && !"page_lease_milliseconds"@.contains(' '),
        is_name("restore_theme_function"@) && !"restore_theme_function"@.contains(' '),
        is_name("lease_controller_function"@) && !"lease_controller_function"@.contains(' '),
        is_name("css"@) && !"css"@.contains(' '),
        is_name("platform_css"@) && !"platform_css"@.contains(' '),
        is_name("theme_id"@) && !"theme_id"@.contains(' '),
        "runtime_config"@.len() == 14 && "runtime_config"@[0] == 'r',
        "locale"@.len() == 6,
        "adapter_config"@.len() == 14 && "adapter_config"@[0] == 'a',
        "has_pro"@.len() == 7,
        "theme_version"@.len() == 13,
        "session_id"@.len() == 10,
        "revoke_assets_url"@.len() == 17,
        "hard_expires_at"@.len() == 15,
        "page_lease_milliseconds"@.len() == 23,
        "restore_theme_function"@.len() == 22,
        "lease_controller_function"@.len() == 25,
        "css"@.len() == 3,
        "platform_css"@.len() == 12,
        "theme_id"@.len() == 8,
{
    reveal_strlit("runtime_config");
    reveal_strlit("locale");
    reveal_strlit("adapter_config");
    reveal_strlit("has_pro");
    reveal_strlit("theme_version");
    reveal_strlit("session_id");
    reveal_strlit("revoke_assets_url");
    reveal_strlit("hard_expires_at");
    reveal_strlit("page_lease_milliseconds");
    reveal_strlit("restore_theme_function");
    reveal_strlit("lease_controller_function");
    reveal_strlit("css");
    reveal_strlit("platform_css");
    reveal_strlit("theme_id");
}

proof fn lemma_values(
    package: ThemePackage,
    application: ThemeApplication,
    platform: Platform,
)
    ensures
        ({
            let values = apply_theme_values(package, application, platform);
            &&& forall|i: int| 0 <= i < values.len() ==> !(#[trigger] values[i]).0.contains(' ')
            &&& forall|i: int|
                0 <= i < values.len() ==> bound_value(values, (#[trigger] values[i]).0) == Some(
                    values[i].1,
                )
        }),
{
    lemma_names();
    let values = apply_theme_values(package, application, platform);
    assert forall|i: int| 0 <= i < values.len() implies bound_value(
        values,
        (#[trigger] values[i]).0,
    ) == Some(values[i].1) by {
        assert forall|j: int| 0 <= j < values.len() && j != i implies (#[trigger] values[j]).0
            != values[i].0 by {}
        distinct_names_keep_their_values(values, i);
    }
}

proof fn lemma_versions_block(
    package: ThemePackage,
    application: ThemeApplication,
    platform: Platform,
    rest: Seq<char>,
)
    ensures
        ({
            let values = apply_theme_values(package, application, platform);
            rendered(APPLY_THEME_VERSIONS@.skip(10) + rest, values) == "const adapter = "@
                + application.adapter_config@
                + ";\n          const hasPro = "@
                + flag(application.has_pro)
                + ";\n          const themeVersion = "@
                + json_quoted(package.version@)
                + ";\n          const runtimeKey = '__codexThemeRuntime';\n"@
                + rendered(rest, values)
        }),
{
    let values = apply_theme_values(package, application, platform);
    lemma_values(package, application, platform);
    lemma_names();
    reveal_strlit("const adapter = ");
    reveal_strlit("adapter_config");
    reveal_strlit(";\n          const hasPro = ");
    reveal_strlit("has_pro");
    reveal_strlit(";\n          const themeVersion = ");
    reveal_strlit("theme_version");
    reveal_strlit(";\n          const runtimeKey = '__codexThemeRuntime';\n");
    let part3 = ";\n          const runtimeKey = '__codexThemeRuntime';\n"@ + rest;
    plain_text_renders_to_itself(";\n          const runtimeKey = '__codexThemeRuntime';\n"@, rest, values);
    let part2 = ";\n          const themeVersion = "@ + placeholder_for("theme_version"@) + part3;
    assert(values[4].0 == "theme_version"@);
    lemma_line(";\n          const themeVersion = "@, "theme_version"@, json_quoted(package.version@), part3, values);
    let part1 = ";\n          const hasPro = "@ + placeholder_for("has_pro"@) + part2;
    assert(values[3].0 == "has_pro"@);
    lemma_line(";\n          const hasPro = "@, "has_pro"@, flag(application.has_pro), part2, values);
    let part0 = "const adapter = "@ + placeholder_for("adapter_config"@) + part1;
    assert(values[2].0 == "adapter_config"@);
    lemma_line("const adapter = "@, "adapter_config"@, application.adapter_config@, part1, values);
    assert(APPLY_THEME_VERSIONS@.skip(10) + rest =~= part0) by {
        reveal_strlit("          const adapter = {adapter_config};\n          const hasPro = {has_pro};\n          const themeVersion = {theme_version};\n          const runtimeKey = '__codexThemeRuntime';\n");
    }
    assert(rendered(part0, values) =~= "const adapter = "@
        + application.adapter_config@
        + ";\n          const hasPro = "@
        + flag(application.has_pro)
        + ";\n          const themeVersion = "@
        + json_quoted(package.version@)
        + ";\n          const runtimeKey = '__codexThemeRuntime';\n"@
        + rendered(rest, values));
}

proof fn lemma_session_block(
    package: ThemePackage,
    application: ThemeApplication,
    platform: Platform,
    rest: Seq<char>,
)
    ensures
        ({
            let values = apply_theme_values(package, application, platform);
            rendered(APPLY_THEME_SESSION@.skip(10) + rest, values) == "const sessionId = "@
                + decimal(application.session_id as nat)
                + ";\n          const revokeAssetsUrl = "@
                + json_quoted(application.revoke_assets_url@)
                + ";\n          const hardExpiresAt = "@
                + hard_deadline(application.expires_at)
                + ";\n"@
                + rendered(rest, values)
        }),
{
    let values = apply_theme_values(package, application, platform);
    lemma_values(package, application, platform);
    lemma_names();
    reveal_strlit("const sessionId = ");
    reveal_strlit("session_id");
    reveal_strlit(";\n          const revokeAssetsUrl = ");
    reveal_strlit("revoke_assets_url");
    reveal_strlit(";\n          const hardExpiresAt = ");
    reveal_strlit("hard_expires_at");
    reveal_strlit(";\n");
    let part3 = ";\n"@ + rest;
    plain_text_renders_to_itself(";\n"@, rest, values);
    let part2 = ";\n          const hardExpiresAt = "@ + placeholder_for("hard_expires_at"@) + part3;
    assert(values[7].0 == "hard_expires_at"@);
    lemma_line(";\n          const hardExpiresAt = "@, "hard_expires_at"@, hard_deadline(application.expires_at), part3, values);
    let part1 = ";\n          const revokeAssetsUrl = "@ + placeholder_for("revoke_assets_url"@) + part2;
    assert(values[6].0 == "revoke_assets_url"@);
    lemma_line(";\n          const revokeAssetsUrl = "@, "revoke_assets_url"@, json_quoted(application.revoke_assets_url@), part2, values);
    let part0 = "const sessionId = "@ + placeholder_for("session_id"@) + part1;
    assert(values[5].0 == "session_id"@);
    lemma_line("const sessionId = "@, "session_id"@, decimal(application.session_id as nat), part1, values);
    assert(APPLY_THEME_SESSION@.skip(10) + rest =~= part0) by {
        reveal_strlit("          const sessionId = {session_id};\n          const revokeAssetsUrl = {revoke_assets_url};\n          const hardExpiresAt = {hard_expires_at};\n");
    }
    assert(rendered(part0, values) =~= "const sessionId = "@
        + decimal(application.session_id as nat)
        + ";\n          const revokeAssetsUrl = "@
        + json_quoted(application.revoke_assets_url@)
        + ";\n          const hardExpiresAt = "@
        + hard_deadline(application.expires_at)
        + ";\n"@
        + rendered(rest, values));
}

proof fn lemma_lease_block(
    package: ThemePackage,
    application: ThemeApplication,
    platform: Platform,
    rest: Seq<char>,
)
    ensures
        ({
            let values = apply_theme_values(package, application, platform);
            rendered(APPLY_THEME_LEASE@.skip(10) + rest, values) == "const pageLeaseMilliseconds = "@
                + decimal(PAGE_LEASE_DURATION as nat)
                + ";\n          const restoreTheme = "@
                + PAGE_RESTORE_THEME_FUNCTION@
                + ";\n          const installPageLease = "@
                + PAGE_LEASE_CONTROLLER_FUNCTION@
                + ";\n"@
                + rendered(rest, values)
        }),
{
    let values = apply_theme_values(package, application, platform);
    lemma_values(package, application, platform);
    lemma_names();
    reveal_strlit("const pageLeaseMilliseconds = ");
    reveal_strlit("page_lease_milliseconds");
    reveal_strlit(";\n          const restoreTheme = ");
    reveal_strlit("restore_theme_function");
    reveal_strlit(";\n          const installPageLease = ");
    reveal_strlit("lease_controller_function");
    reveal_strlit(";\n");
    let part3 = ";\n"@ + rest;
    plain_text_renders_to_itself(";\n"@, rest, values);
    let part2 = ";\n          const installPageLease = "@ + placeholder_for("lease_controller_function"@) + part3;
    assert(values[10].0 == "lease_controller_function"@);
    lemma_line(";\n          const installPageLease = "@, "lease_controller_function"@, PAGE_LEASE_CONTROLLER_FUNCTION@, part3, values);
    let part1 = ";\n          const restoreTheme = "@ + placeholder_for("restore_theme_function"@) + part2;
    assert(values[9].0 == "restore_theme_function"@);
    lemma_line(";\n          const restoreTheme = "@, "restore_theme_function"@, PAGE_RESTORE_THEME_FUNCTION@, part2, values);
    let part0 = "const pageLeaseMilliseconds = "@ + placeholder_for("page_lease_milliseconds"@) + part1;
    assert(values[8].0 == "page_lease_milliseconds"@);
    lemma_line("const pageLeaseMilliseconds = "@, "page_lease_milliseconds"@, decimal(PAGE_LEASE_DURATION as nat), part1, values);
    assert(APPLY_THEME_LEASE@.skip(10) + rest =~= part0) by {
        reveal_strlit("          const pageLeaseMilliseconds = {page_lease_milliseconds};\n          const restoreTheme = {restore_theme_function};\n          const installPageLease = {lease_controller_function};\n");
    }
    assert(rendered(part0, values) =~= "const pageLeaseMilliseconds = "@
        + decimal(PAGE_LEASE_DURATION as nat)
        + ";\n          const restoreTheme = "@
        + PAGE_RESTORE_THEME_FUNCTION@
        + ";\n          const installPageLease = "@
        + PAGE_LEASE_CONTROLLER_FUNCTION@
        + ";\n"@
        + rendered(rest, values));
}

proof fn lemma_style_block(
    package: ThemePackage,
    application: ThemeApplication,
    platform: Platform,
    rest: Seq<char>,
)
    ensures
        ({
            let values = apply_theme_values(package, application, platform);
            rendered(APPLY_THEME_STYLE@.skip(12) + rest, values) == "const runtimeCss = "@
                + json_quoted(package.css@)
                + " + '\\n' + "@
                + json_quoted(platform_css(platform))
                + ";\n            if (style.textContent !== runtimeCss) style.textContent = runtimeCss;\n            document.documentElement.setAttribute('data-ct-theme', "@
                + json_quoted(package.id@)
                + ");\n"@
                + rendered(rest, values)
        }),
{
    let values = apply_theme_values(package, application, platform);
    lemma_values(package, application, platform);
    lemma_names();
    reveal_strlit("const runtimeCss = ");
    reveal_strlit("css");
    reveal_strlit(" + '\\n' + ");
    reveal_strlit("platform_css");
    reveal_strlit(";\n            if (style.textContent !== runtimeCss) style.textContent = runtimeCss;\n            document.documentElement.setAttribute('data-ct-theme', ");
    reveal_strlit("theme_id");
    reveal_strlit(");\n");
    let part3 = ");\n"@ + rest;
    plain_text_renders_to_itself(");\n"@, rest, values);
    let part2 = ";\n            if (style.textContent !== runtimeCss) style.textContent = runtimeCss;\n            document.documentElement.setAttribute('data-ct-theme', "@ + placeholder_for("theme_id"@) + part3;
    assert(values[13].0 == "theme_id"@);
    lemma_line(";\n            if (style.textContent !== runtimeCss) style.textContent = runtimeCss;\n            document.documentElement.setAttribute('data-ct-theme', "@, "theme_id"@, json_quoted(package.id@), part3, values);
    let part1 = " + '\\n' + "@ + placeholder_for("platform_css"@) + part2;
    assert(values[12].0 == "platform_css"@);
    lemma_line(" + '\\n' + "@, "platform_css"@, json_quoted(platform_css(platform)), part2, values);
    let part0 = "const runtimeCss = "@ + placeholder_for("css"@) + part1;
    assert(values[11].0 == "css"@);
    lemma_line("const runtimeCss = "@, "css"@, json_quoted(package.css@), part1, values);
    assert(APPLY_THEME_STYLE@.skip(12) + rest =~= part0) by {
        reveal_strlit("            const runtimeCss = {css} + '\\n' + {platform_css};\n            if (style.textContent !== runtimeCss) style.textContent = runtimeCss;\n            document.documentElement.setAttribute('data-ct-theme', {theme_id});\n");
    }
    assert(rendered(part0, values) =~= "const runtimeCss = "@
        + json_quoted(package.css@)
        + " + '\\n' + "@
        + json_quoted(platform_css(platform))
        + ";\n            if (style.textContent !== runtimeCss) style.textContent = runtimeCss;\n            document.documentElement.setAttribute('data-ct-theme', "@
        + json_quoted(package.id@)
        + ");\n"@
        + rendered(rest, values));
}

proof fn lemma_setup_block(
    package: ThemePackage,
    application: ThemeApplication,
    platform: Platform,
    rest: Seq<char>,
)
    ensures
        ({
            let values = apply_theme_values(package, application, platform);
            rendered(APPLY_THEME_SETUP@.skip(9) + rest, values) == "\n          const baseConfig = "@
                + json_printed(json_tree(*application.runtime_config))
                + ";\n          let config = baseConfig;\n          let requestedLocale = "@
                + json_quoted(theme_locale(application.locale@))
                + ";\n"@
                + rendered(rest, values)
        }),
{
    let values = apply_theme_values(package, application, platform);
    lemma_values(package, application, platform);
    lemma_names();
    reveal_strlit("\n          const baseConfig = ");
    reveal_strlit("runtime_config");
    reveal_strlit(";\n          let config = baseConfig;\n          let requestedLocale = ");
    reveal_strlit("locale");
    reveal_strlit(";\n");
    let part2 = ";\n"@ + rest;
    plain_text_renders_to_itself(";\n"@, rest, values);
    let part1 = ";\n          let config = baseConfig;\n          let requestedLocale = "@ + placeholder_for("locale"@) + part2;
    assert(values[1].0 == "locale"@);
    lemma_line(";\n          let config = baseConfig;\n          let requestedLocale = "@, "locale"@, json_quoted(theme_locale(application.locale@)), part2, values);
    let part0 = "\n          const baseConfig = "@ + placeholder_for("runtime_config"@) + part1;
    assert(values[0].0 == "runtime_config"@);
    lemma_line("\n          const baseConfig = "@, "runtime_config"@, json_printed(json_tree(*application.runtime_config)), part1, values);
    assert(APPLY_THEME_SETUP@.skip(9) + rest =~= part0) by {
        reveal_strlit("(() => {{\n          const baseConfig = {runtime_config};\n          let config = baseConfig;\n          let requestedLocale = {locale};\n");
    }
    assert(rendered(part0, values) =~= "\n          const baseConfig = "@
        + json_printed(json_tree(*application.runtime_config))
        + ";\n          let config = baseConfig;\n          let requestedLocale = "@
        + json_quoted(theme_locale(application.locale@))
        + ";\n"@
        + rendered(rest, values));
}

/// The script that applies a theme makes the style sheet of the page that of the theme, followed by
/// that of the platform, and marks the page with the id of the theme, whatever these texts hold.
pub proof fn applied_script_styles_the_page(
    package: ThemePackage,
    application: ThemeApplication,
    platform: Platform,
    script: String,
)
    requires
        call_ensures(apply_theme_expression, (&package, &application, platform), script),
    ensures
        ({
            holds(
                script@,
                "const runtimeCss = "@
                + json_quoted(package.css@)
                + " + '\\n' + "@
                + json_quoted(platform_css(platform))
                + ";\n            if (style.textContent !== runtimeCss) style.textContent = runtimeCss;\n            document.documentElement.setAttribute('data-ct-theme', "@
                + json_quoted(package.id@)
                + ");\n"@,
            )
        }),
{
    let values = apply_theme_values(package, application, platform);
    let front = APPLY_THEME_SETUP@ + APPLY_THEME_LOCALE@ + APPLY_THEME_VERSIONS@
        + APPLY_THEME_SESSION@ + APPLY_THEME_LEASE@ + APPLY_THEME_STATUS@ + APPLY_THEME_ASSETS@
        + APPLY_THEME_SETTINGS@ + APPLY_THEME_LAYOUT@ + APPLY_THEME_CONVERSATION@
        + APPLY_THEME_HERO@ + APPLY_THEME_SHELL@;
    let rest = APPLY_THEME_SLOTS@ + APPLY_THEME_SIDEBAR@ + APPLY_THEME_COMPOSER@
        + APPLY_THEME_HEALTH@ + APPLY_THEME_RUNTIME@;
    let lead = APPLY_THEME_STYLE@.take(12);
    let block = APPLY_THEME_STYLE@.skip(12);
    assert(lead.last() == ' ' && APPLY_THEME_STYLE@.len() >= 12) by {
        reveal_strlit("            const runtimeCss = {css} + '\\n' + {platform_css};\n            if (style.textContent !== runtimeCss) style.textContent = runtimeCss;\n            document.documentElement.setAttribute('data-ct-theme', {theme_id});\n");
    }
    lemma_values(package, application, platform);
    assert(apply_theme_template() =~= (front + lead) + (block + rest));
    assert((front + lead).last() == ' ');
    parts_render_on_their_own(front + lead, block + rest, values);
    lemma_style_block(package, application, platform, rest);
    let part = "const runtimeCss = "@
                + json_quoted(package.css@)
                + " + '\\n' + "@
                + json_quoted(platform_css(platform))
                + ";\n            if (style.textContent !== runtimeCss) style.textContent = runtimeCss;\n            document.documentElement.setAttribute('data-ct-theme', "@
                + json_quoted(package.id@)
                + ");\n"@;
    assert(script@ =~= rendered(front + lead, values) + part + rendered(rest, values));
}

/// The script that applies a theme carries the adapter to the application, whether the user has the
/// paid version, and the version of the theme.
pub proof fn applied_script_names_the_application(
    package: ThemePackage,
    application: ThemeApplication,
    platform: Platform,
    script: String,
)
    requires
        call_ensures(apply_theme_expression, (&package, &application, platform), script),
    ensures
        ({
            let pro = if application.has_pro {
                "true"@
            } else {
                "false"@
            };
            holds(
                script@,
                "const adapter = "@
                + application.adapter_config@
                + ";\n          const hasPro = "@
                + pro
                + ";\n          const themeVersion = "@
                + json_quoted(package.version@)
                + ";\n          const runtimeKey = '__codexThemeRuntime';\n"@,
            )
        }),
{
    let values = apply_theme_values(package, application, platform);
    let front = APPLY_THEME_SETUP@ + APPLY_THEME_LOCALE@;
    let rest = APPLY_THEME_SESSION@ + APPLY_THEME_LEASE@ + APPLY_THEME_STATUS@
        + APPLY_THEME_ASSETS@ + APPLY_THEME_SETTINGS@ + APPLY_THEME_LAYOUT@
        + APPLY_THEME_CONVERSATION@ + APPLY_THEME_HERO@ + APPLY_THEME_SHELL@ + APPLY_THEME_STYLE@
        + APPLY_THEME_SLOTS@ + APPLY_THEME_SIDEBAR@ + APPLY_THEME_COMPOSER@ + APPLY_THEME_HEALTH@
        + APPLY_THEME_RUNTIME@;
    let lead = APPLY_THEME_VERSIONS@.take(10);
    let block = APPLY_THEME_VERSIONS@.skip(10);
    assert(lead.last() == ' ' && APPLY_THEME_VERSIONS@.len() >= 10) by {
        reveal_strlit("          const adapter = {adapter_config};\n          const hasPro = {has_pro};\n          const themeVersion = {theme_version};\n          const runtimeKey = '__codexThemeRuntime';\n");
    }
    lemma_values(package, application, platform);
    assert(apply_theme_template() =~= (front + lead) + (block + rest));
    assert((front + lead).last() == ' ');
    parts_render_on_their_own(front + lead, block + rest, values);
    lemma_versions_block(package, application, platform, rest);
    let pro = if application.has_pro {
                "true"@
            } else {
                "false"@
            };
    let part = "const adapter = "@
                + application.adapter_config@
                + ";\n          const hasPro = "@
                + pro
                + ";\n          const themeVersion = "@
                + json_quoted(package.version@)
                + ";\n          const runtimeKey = '__codexThemeRuntime';\n"@;
    assert(script@ =~= rendered(front + lead, values) + part + rendered(rest, values));
}

/// The script that applies a theme carries the number of its session, the URL that revokes the
/// assets, and the end of the theme: none, or its second in milliseconds, as far as a `u64` reaches.
pub proof fn applied_script_is_bound_to_its_session(
    package: ThemePackage,
    application: ThemeApplication,
    platform: Platform,
    script: String,
)
    requires
        call_ensures(apply_theme_expression, (&package, &application, platform), script),
    ensures
        ({
            let end = match application.expires_at {
                Some(seconds) => if seconds * 1000 <= u64::MAX {
                    decimal((seconds * 1000) as nat)
                } else {
                    decimal(u64::MAX as nat)
                },
                None => "null"@,
            };
            holds(
                script@,
                "const sessionId = "@
                + decimal(application.session_id as nat)
                + ";\n          const revokeAssetsUrl = "@
                + json_quoted(application.revoke_assets_url@)
                + ";\n          const hardExpiresAt = "@
                + end
                + ";\n"@,
            )
        }),
{
    let values = apply_theme_values(package, application, platform);
    let front = APPLY_THEME_SETUP@ + APPLY_THEME_LOCALE@ + APPLY_THEME_VERSIONS@;
    let rest = APPLY_THEME_LEASE@ + APPLY_THEME_STATUS@ + APPLY_THEME_ASSETS@
        + APPLY_THEME_SETTINGS@ + APPLY_THEME_LAYOUT@ + APPLY_THEME_CONVERSATION@
        + APPLY_THEME_HERO@ + APPLY_THEME_SHELL@ + APPLY_THEME_STYLE@ + APPLY_THEME_SLOTS@
        + APPLY_THEME_SIDEBAR@ + APPLY_THEME_COMPOSER@ + APPLY_THEME_HEALTH@
        + APPLY_THEME_RUNTIME@;
    let lead = APPLY_THEME_SESSION@.take(10);
    let block = APPLY_THEME_SESSION@.skip(10);
    assert(lead.last() == ' ' && APPLY_THEME_SESSION@.len() >= 10) by {
        reveal_strlit("          const sessionId = {session_id};\n          const revokeAssetsUrl = {revoke_assets_url};\n          const hardExpiresAt = {hard_expires_at};\n");
    }
    lemma_values(package, application, platform);
    assert(apply_theme_template() =~= (front + lead) + (block + rest));
    assert((front + lead).last() == ' ');
    parts_render_on_their_own(front + lead, block + rest, values);
    lemma_session_block(package, application, platform, rest);
    let end = match application.expires_at {
                Some(seconds) => if seconds * 1000 <= u64::MAX {
                    decimal((seconds * 1000) as nat)
                } else {
                    decimal(u64::MAX as nat)
                },
                None => "null"@,
            };
    let part = "const sessionId = "@
                + decimal(application.session_id as nat)
                + ";\n          const revokeAssetsUrl = "@
                + json_quoted(application.revoke_assets_url@)
                + ";\n          const hardExpiresAt = "@
                + end
                + ";\n"@;
    assert(script@ =~= rendered(front + lead, values) + part + rendered(rest, values));
}

/// The script that applies a theme carries the duration of its lease in milliseconds, and the
/// functions that restore the page and watch over the lease.
pub proof fn applied_script_carries_its_lease(
    package: ThemePackage,
    application: ThemeApplication,
    platform: Platform,
    script: String,
)
    requires
        call_ensures(apply_theme_expression, (&package, &application, platform), script),
    ensures
        ({
            holds(
                script@,
                "const pageLeaseMilliseconds = "@
                + decimal(15_000)
                + ";\n          const restoreTheme = "@
                + PAGE_RESTORE_THEME_FUNCTION@
                + ";\n          const installPageLease = "@
                + PAGE_LEASE_CONTROLLER_FUNCTION@
                + ";\n"@,
            )
        }),
{
    let values = apply_theme_values(package, application, platform);
    let front = APPLY_THEME_SETUP@ + APPLY_THEME_LOCALE@ + APPLY_THEME_VERSIONS@
        + APPLY_THEME_SESSION@;
    let rest = APPLY_THEME_STATUS@ + APPLY_THEME_ASSETS@ + APPLY_THEME_SETTINGS@
        + APPLY_THEME_LAYOUT@ + APPLY_THEME_CONVERSATION@ + APPLY_THEME_HERO@ + APPLY_THEME_SHELL@
        + APPLY_THEME_STYLE@ + APPLY_THEME_SLOTS@ + APPLY_THEME_SIDEBAR@ + APPLY_THEME_COMPOSER@
        + APPLY_THEME_HEALTH@ + APPLY_THEME_RUNTIME@;
    let lead = APPLY_THEME_LEASE@.take(10);
    let block = APPLY_THEME_LEASE@.skip(10);
    assert(lead.last() == ' ' && APPLY_THEME_LEASE@.len() >= 10) by {
        reveal_strlit("          const pageLeaseMilliseconds = {page_lease_milliseconds};\n          const restoreTheme = {restore_theme_function};\n          const installPageLease = {lease_controller_function};\n");
    }
    lemma_values(package, application, platform);
    assert(apply_theme_template() =~= (front + lead) + (block + rest));
    assert((front + lead).last() == ' ');
    parts_render_on_their_own(front + lead, block + rest, values);
    lemma_lease_block(package, application, platform, rest);
    let part = "const pageLeaseMilliseconds = "@
                + decimal(15_000)
                + ";\n          const restoreTheme = "@
                + PAGE_RESTORE_THEME_FUNCTION@
                + ";\n          const installPageLease = "@
                + PAGE_LEASE_CONTROLLER_FUNCTION@
                + ";\n"@;
    assert(script@ =~= rendered(front + lead, values) + part + rendered(rest, values));
}

proof fn lemma_setup_start()
    ensures
        APPLY_THEME_SETUP@ == "(() => "@ + seq!['{', '{'] + APPLY_THEME_SETUP@.skip(9),
        "(() => {"@ == "(() => "@ + seq!['{'],
        is_literal("(() => "@),
{
    reveal_strlit("(() => ");
    reveal_strlit("(() => {");
    reveal_strlit("(() => {{\n          const baseConfig = {runtime_config};\n          let config = baseConfig;\n          let requestedLocale = {locale};\n");
    assert("(() => {"@ =~= "(() => "@ + seq!['{']);
    assert(APPLY_THEME_SETUP@ =~= "(() => "@ + seq!['{', '{'] + APPLY_THEME_SETUP@.skip(9));
}

/// The script that applies a theme begins with the configuration of the theme and the language that
/// it is to speak.
#[verifier::spinoff_prover]
#[verifier::rlimit(60)]
pub proof fn applied_script_begins_with_the_theme(
    package: ThemePackage,
    application: ThemeApplication,
    platform: Platform,
    script: String,
)
    requires
        call_ensures(apply_theme_expression, (&package, &application, platform), script),
    ensures
        exists|rest: Seq<char>|
            script@ == #[trigger] ("(() => {"@
                + "\n          const baseConfig = "@
                + json_printed(json_tree(*application.runtime_config))
                + ";\n          let config = baseConfig;\n          let requestedLocale = "@
                + json_quoted(theme_locale(application.locale@))
                + ";\n"@
                + rest),
{
    let values = apply_theme_values(package, application, platform);
    let rest = APPLY_THEME_LOCALE@ + APPLY_THEME_VERSIONS@ + APPLY_THEME_SESSION@
        + APPLY_THEME_LEASE@ + APPLY_THEME_STATUS@ + APPLY_THEME_ASSETS@ + APPLY_THEME_SETTINGS@
        + APPLY_THEME_LAYOUT@ + APPLY_THEME_CONVERSATION@ + APPLY_THEME_HERO@ + APPLY_THEME_SHELL@
        + APPLY_THEME_STYLE@ + APPLY_THEME_SLOTS@ + APPLY_THEME_SIDEBAR@ + APPLY_THEME_COMPOSER@
        + APPLY_THEME_HEALTH@ + APPLY_THEME_RUNTIME@;
    let block = APPLY_THEME_SETUP@.skip(9);
    lemma_setup_start();
    let braces = seq!['{', '{'] + (block + rest);
    assert("(() => "@ + seq!['{', '{'] + block + rest =~= "(() => "@ + braces);
    assert(apply_theme_template() =~= APPLY_THEME_SETUP@ + rest);
    plain_text_renders_to_itself("(() => "@, braces, values);
    assert(braces.skip(2) =~= block + rest);
    lemma_setup_block(package, application, platform, rest);
    assert(script@ =~= "(() => {"@
                + "\n          const baseConfig = "@
                + json_printed(json_tree(*application.runtime_config))
                + ";\n          let config = baseConfig;\n          let requestedLocale = "@
                + json_quoted(theme_locale(application.locale@))
                + ";\n"@
        + rendered(rest, values));
}

proof fn lemma_holds(text: Seq<char>, front: Seq<char>, part: Seq<char>, rest: Seq<char>)
    requires
        text == front + part + rest,
    ensures
        holds(text, part),
{
}

/// The expression that renews a lease does so for the theme of its own session alone, for as long as
/// asked, and not beyond the end of the theme.
pub proof fn renewal_is_bound_to_its_session(
    session_id: u64,
    milliseconds: u128,
    expression: String,
)
    requires
        call_ensures(renew_theme_lease_expression, (session_id, milliseconds), expression),
    ensures
        holds(
            expression@,
            "if (!runtime || runtime.sessionId !== "@ + decimal(session_id as nat)
                + ") return false;"@,
        ),
        holds(
            expression@,
            "runtime.leaseExpiresAt = Math.min(\n            now + "@ + decimal(milliseconds as nat)
                + ",\n            runtime.hardExpiresAt ?? Number.POSITIVE_INFINITY\n          );"@,
        ),
{
    lemma_renewal_session(session_id, milliseconds as nat);
    lemma_renewal_duration(session_id, milliseconds as nat);
}

proof fn lemma_renewal_session(session_id: u64, milliseconds: nat)
    ensures
        holds(
            renewal_of(session_id, milliseconds),
            "if (!runtime || runtime.sessionId !== "@ + decimal(session_id as nat)
                + ") return false;"@,
        ),
{
    reveal_strlit("if (!runtime || runtime.sessionId !== ");
    reveal_strlit(") return false;");
    let size = RENEW_LEASE_SESSION@.len() - "if (!runtime || runtime.sessionId !== "@.len();
    let front = RENEW_LEASE_SESSION@.take(size);
    let rest = RENEW_LEASE_DURATION@.skip(") return false;"@.len() as int);
    assert(RENEW_LEASE_SESSION@ =~= front + "if (!runtime || runtime.sessionId !== "@) by {
        reveal_strlit("(() => {\n          const runtime = window.__codexThemeRuntime;\n          if (!runtime || runtime.sessionId !== ");
    }
    assert(RENEW_LEASE_DURATION@ =~= ") return false;"@ + rest) by {
        reveal_strlit(") return false;\n          const now = Date.now();\n          if (runtime.hardExpiresAt && now >= runtime.hardExpiresAt) {\n            runtime.restoreTheme?.(runtime.sessionId, true);\n            return false;\n          }\n          runtime.leaseExpiresAt = Math.min(\n            now + ");
    }
    let part = "if (!runtime || runtime.sessionId !== "@ + decimal(session_id as nat)
        + ") return false;"@;
    let behind = rest + decimal(milliseconds) + RENEW_LEASE_END@;
    assert(renewal_of(session_id, milliseconds) =~= front + part + behind);
    lemma_holds(renewal_of(session_id, milliseconds), front, part, behind);
}

proof fn lemma_renewal_duration(session_id: u64, milliseconds: nat)
    ensures
        holds(
            renewal_of(session_id, milliseconds),
            "runtime.leaseExpiresAt = Math.min(\n            now + "@ + decimal(milliseconds)
                + ",\n            runtime.hardExpiresAt ?? Number.POSITIVE_INFINITY\n          );"@,
        ),
{
    let start = "runtime.leaseExpiresAt = Math.min(\n            now + "@;
    let end = ",\n            runtime.hardExpiresAt ?? Number.POSITIVE_INFINITY\n          );"@;
    reveal_strlit("runtime.leaseExpiresAt = Math.min(\n            now + ");
    reveal_strlit(
        ",\n            runtime.hardExpiresAt ?? Number.POSITIVE_INFINITY\n          );",
    );
    let before = RENEW_LEASE_DURATION@.take(RENEW_LEASE_DURATION@.len() - start.len());
    let rest = RENEW_LEASE_END@.skip(end.len() as int);
    assert(RENEW_LEASE_DURATION@ =~= before + start) by {
        reveal_strlit(") return false;\n          const now = Date.now();\n          if (runtime.hardExpiresAt && now >= runtime.hardExpiresAt) {\n            runtime.restoreTheme?.(runtime.sessionId, true);\n            return false;\n          }\n          runtime.leaseExpiresAt = Math.min(\n            now + ");
    }
    assert(RENEW_LEASE_END@ =~= end + rest) by {
        reveal_strlit(",\n            runtime.hardExpiresAt ?? Number.POSITIVE_INFINITY\n          );\n          return true;\n        })()");
    }
    let part = start + decimal(milliseconds) + end;
    let front = RENEW_LEASE_SESSION@ + decimal(session_id as nat) + before;
    assert(renewal_of(session_id, milliseconds) =~= front + part + rest);
    lemma_holds(renewal_of(session_id, milliseconds), front, part, rest);
}

/// The expression that switches the language does so for the theme of its own session alone, to
/// Chinese for a locale of that language and to English for any other.
pub proof fn locale_change_is_bound_to_its_session(
    session_id: u64,
    locale: &str,
    expression: String,
)
    requires
        call_ensures(sync_locale_expression, (session_id, locale), expression),
    ensures
        ({
            let chinese = locale@.len() >= 2 && (locale@[0] == 'z' || locale@[0] == 'Z') && (
            locale@[1] == 'h' || locale@[1] == 'H');
            let language = if chinese {
                json_quoted("zh-CN"@)
            } else {
                json_quoted("en"@)
            };
            holds(
                expression@,
                "if (!runtime || runtime.sessionId !== "@ + decimal(session_id as nat)
                    + " || !runtime.syncLocale) return false;\n          return runtime.syncLocale("@
                    + language + ");"@,
            )
        }),
{
    chinese_locales_begin_with_zh(locale@);
    reveal_strlit("if (!runtime || runtime.sessionId !== ");
    reveal_strlit(");");
    let size = SYNC_LOCALE_SESSION@.len() - "if (!runtime || runtime.sessionId !== "@.len();
    let front = SYNC_LOCALE_SESSION@.take(size);
    let rest = SYNC_LOCALE_END@.skip(2);
    assert(SYNC_LOCALE_SESSION@ =~= front + "if (!runtime || runtime.sessionId !== "@) by {
        reveal_strlit("(() => {\n          const runtime = window.__codexThemeRuntime;\n          if (!runtime || runtime.sessionId !== ");
    }
    assert(SYNC_LOCALE_END@ =~= ");"@ + rest) by {
        reveal_strlit(");\n        })()");
    }
    let part = "if (!runtime || runtime.sessionId !== "@ + decimal(session_id as nat)
        + SYNC_LOCALE_LANGUAGE@ + json_quoted(theme_locale(locale@)) + ");"@;
    assert(expression@ =~= front + part + rest);
    lemma_holds(expression@, front, part, rest);
}

/// The expressions that renew a lease and that change the language are made of their parts, with the
/// number of the session, the milliseconds and the language between them, and of nothing else.
pub proof fn session_expressions_are_whole(
    session_id: u64,
    milliseconds: u128,
    locale: &str,
    normal: &'static str,
    renewal: String,
    change: String,
)
    requires
        call_ensures(renew_theme_lease_expression, (session_id, milliseconds), renewal),
        call_ensures(sync_locale_expression, (session_id, locale), change),
        call_ensures(normalize_theme_locale, (locale,), normal),
    ensures
        renewal@ == RENEW_LEASE_SESSION@ + decimal(session_id as nat) + RENEW_LEASE_DURATION@
            + decimal(milliseconds as nat) + RENEW_LEASE_END@,
        change@ == SYNC_LOCALE_SESSION@ + decimal(session_id as nat) + SYNC_LOCALE_LANGUAGE@
            + json_quoted(normal@) + SYNC_LOCALE_END@,
{
}

} // verus!
