//! What the scripts and the style of the engine do to the page of the application.
use retheme_codex::expression::{
    renew_theme_lease_expression, sync_locale_expression, whole_apply_theme_template,
};
use retheme_codex::locale::normalize_theme_locale;
use retheme_codex::page_script::{
    PAGE_LEASE_CONTROLLER_FUNCTION, PAGE_RESTORE_THEME_FUNCTION, REMOVE_THEME_EXPRESSION,
};
use retheme_codex::platform::Platform;
use retheme_codex::platform_css::{
    platform_runtime_css, PLATFORM_RUNTIME_CSS, WINDOWS_PLATFORM_RUNTIME_CSS,
};

/// All scripts and styles that reach the page, as they are written.
fn page_source() -> String {
    let parts = [
        PAGE_RESTORE_THEME_FUNCTION.to_owned(),
        PAGE_LEASE_CONTROLLER_FUNCTION.to_owned(),
        PLATFORM_RUNTIME_CSS.to_owned(),
        WINDOWS_PLATFORM_RUNTIME_CSS.to_owned(),
        whole_apply_theme_template(),
        REMOVE_THEME_EXPRESSION.to_owned(),
        renew_theme_lease_expression(1, 15_000),
        sync_locale_expression(1, "zh"),
    ];
    parts.join("\n")
}

#[test]
fn repeated_apply_keeps_current_session_assets_alive() {
    let source = page_source();

    assert!(source.contains("existingRuntime?.sessionId === sessionId"));
    assert!(source.contains("const refreshedSlots = existingRuntime.apply()"));
    assert!(source.contains("existingRuntime.leaseExpiresAt = Math.min("));
    assert!(source.contains("return existingRuntime.slots ?? []"));
    assert!(source.contains("runtime.slots = apply() ?? runtime.slots"));
    assert!(source.contains("if (revokeAssets) runtime?.revokeAssets?.()"));
    assert!(source.contains("existingRuntime?.revokeAssets?.()"));
    assert!(source.contains("runtime.restoreTheme(runtime.sessionId, false)"));
}

#[test]
fn theme_locale_is_owned_by_retheme_and_can_sync_live() {
    let source = page_source();

    assert_eq!(normalize_theme_locale("zh-CN"), "zh-CN");
    assert_eq!(normalize_theme_locale("zh_TW"), "zh-CN");
    assert_eq!(normalize_theme_locale("en-US"), "en");
    assert!(source.contains("let requestedLocale = {locale};"));
    assert!(source.contains("runtime.syncLocale = locale =>"));
    let browser_locale_fallback =
        ["document.documentElement?.lang", " || navigator.language"].concat();
    assert!(!source.contains(&browser_locale_fallback));
}

#[test]
fn app_background_is_a_non_interactive_bottom_layer() {
    assert!(PLATFORM_RUNTIME_CSS.contains("[data-ct-slot=\"app.shell\"]"));
    assert!(PLATFORM_RUNTIME_CSS.contains("isolation: isolate !important"));
    assert!(PLATFORM_RUNTIME_CSS.contains("[data-ct-mount=\"app.background\"]"));
    assert!(PLATFORM_RUNTIME_CSS.contains("z-index: -1 !important"));
    assert!(PLATFORM_RUNTIME_CSS.contains("pointer-events: none !important"));
}

#[test]
fn controlled_assets_switch_with_chatgpt_appearance() {
    let source = page_source();

    assert!(source.contains("const assetUrlForScheme = asset =>"));
    assert!(source.contains("asset.lightAssetUrl"));
    assert!(source.contains("asset.darkAssetUrl"));
    assert!(source.contains("syncManagedAssetSchemes();"));
    assert!(source.contains("const assetUrl = assetUrlForScheme(asset);"));
}

#[test]
fn card_background_is_a_non_interactive_inner_layer() {
    assert!(PLATFORM_RUNTIME_CSS.contains("[data-ct-slot=\"home.card\"]"));
    assert!(PLATFORM_RUNTIME_CSS.contains("[data-ct-mount=\"home.card.background\"]",));
    assert!(PLATFORM_RUNTIME_CSS.contains("border-radius: inherit !important"));
    assert!(PLATFORM_RUNTIME_CSS.contains("pointer-events: none !important"));
}

#[test]
fn compact_home_hides_full_home_content() {
    let source = page_source();

    assert!(
        PLATFORM_RUNTIME_CSS
            .contains(":root[data-ct-view=\"home-compact\"] [data-ct-slot=\"home.prompt\"]")
    );
    assert!(
        PLATFORM_RUNTIME_CSS
            .contains(":root[data-ct-view=\"home-compact\"] [data-ct-slot=\"home.cards\"]")
    );
    assert!(
        PLATFORM_RUNTIME_CSS
            .contains(":root[data-ct-view=\"home-compact\"] [data-ct-slot=\"home.layout\"]")
    );
    assert!(
        PLATFORM_RUNTIME_CSS.contains(
            ":root[data-ct-view=\"home-compact\"] [data-ct-slot=\"composer.region\"]"
        )
    );
    assert!(PLATFORM_RUNTIME_CSS.contains("min-height: 100% !important"));
    assert!(PLATFORM_RUNTIME_CSS.contains("max-width: none !important"));
    assert!(PLATFORM_RUNTIME_CSS.contains("align-self: stretch !important"));
    assert!(PLATFORM_RUNTIME_CSS.contains("margin-right: auto !important"));
    assert!(PLATFORM_RUNTIME_CSS.contains("margin-left: auto !important"));
    assert!(PLATFORM_RUNTIME_CSS.contains("justify-content: flex-end !important"));
    assert!(source.contains("mountConversationBanner(main, editor, slots, homeLayout)"));
}

#[test]
fn banner_foregrounds_are_non_interactive_bottom_aligned_layers() {
    let source = page_source();

    for slot in ["home.hero.foreground", "conversation.banner.foreground"] {
        assert!(
            PLATFORM_RUNTIME_CSS.contains(&format!("[data-ct-slot=\"{slot}\"]")),
            "missing platform layout for {slot}"
        );
    }
    assert!(PLATFORM_RUNTIME_CSS.contains("--ct-home-hero-foreground-bottom"));
    assert!(PLATFORM_RUNTIME_CSS.contains("--ct-conversation-banner-foreground-bottom"));
    assert!(PLATFORM_RUNTIME_CSS.contains("object-position: center bottom !important"));
    assert!(PLATFORM_RUNTIME_CSS.contains("pointer-events: none !important"));
    assert!(PLATFORM_RUNTIME_CSS.contains(
        "max-height: var(--ct-conversation-banner-foreground-safe-height, none) !important"
    ));
    assert!(source.contains("const syncConversationBannerForeground = () =>"));
    assert!(source.contains("ancestor.getBoundingClientRect().top + ancestor.clientTop"));
    assert!(source.contains("syncConversationBannerForeground();"));
}

#[test]
fn conversation_header_keeps_banner_outside_the_message_scroller() {
    let source = page_source();

    assert!(PLATFORM_RUNTIME_CSS.contains("[data-ct-slot=\"conversation.stage\"]"));
    assert!(PLATFORM_RUNTIME_CSS.contains("[data-ct-slot=\"conversation.header\"]"));
    assert!(PLATFORM_RUNTIME_CSS.contains("[data-ct-slot=\"conversation.header.content\"]"));
    assert!(PLATFORM_RUNTIME_CSS.contains("[data-ct-slot=\"conversation.viewport\"]"));
    assert!(PLATFORM_RUNTIME_CSS.contains("flex-direction: column !important"));
    assert!(
        PLATFORM_RUNTIME_CSS
            .contains("padding-top: var(--ct-conversation-header-safe-top, 0px) !important")
    );
    assert!(!PLATFORM_RUNTIME_CSS.contains(
        "grid-template-columns:\n    minmax(0, 1fr)\n    var(--ct-conversation-summary-width"
    ));
    assert!(
        PLATFORM_RUNTIME_CSS
            .contains("width: var(--ct-conversation-content-width, 100%) !important")
    );
    assert!(
        PLATFORM_RUNTIME_CSS
            .contains("margin-left: var(--ct-conversation-content-left, 0px) !important")
    );
    assert!(PLATFORM_RUNTIME_CSS.contains("border: 0 !important"));
    assert!(PLATFORM_RUNTIME_CSS.contains("box-shadow: none !important"));
    assert!(PLATFORM_RUNTIME_CSS.contains(
        ":where([data-ct-slot=\"conversation.stage\"], [data-ct-slot=\"conversation.viewport\"])::before"
    ));
    assert!(source.contains("stage.insertBefore(header, viewport)"));
    assert!(source.contains("content.appendChild(banner)"));
    assert!(source.contains("const syncConversationHeaderLayout = () =>"));
    assert!(source.contains("composerRect.left - stageRect.left"));
    assert!(source.contains("stageRect.right - composerRect.right"));
    assert!(source.contains("titlebarBottom - stageRect.top"));
    assert!(source.contains("syncConversationHeaderLayout();"));
    assert!(source.contains("markConversationSummary(stage, slots)"));
    assert!(source.contains("config.conversationSummaryDecoration?.assetUrl"));
    assert!(source.contains("'conversation.summary.decoration'"));
    assert!(!PLATFORM_RUNTIME_CSS.contains("--ct-conversation-banner-clearance"));
    assert!(source.contains("conversation.summary.region"));
}

#[test]
fn conversation_header_metrics_are_reversible_and_resize_only_updates_geometry() {
    let source = page_source();
    let runtime_source = source.as_str();

    for property in [
        "--ct-conversation-content-left",
        "--ct-conversation-content-width",
        "--ct-conversation-header-safe-top",
    ] {
        assert!(
            runtime_source
                .matches(&format!("removeProperty('{property}')"))
                .count()
                >= 3,
            "missing cleanup for {property}"
        );
    }
    assert!(runtime_source.contains("runtime.handleResize = () =>"));
    assert!(runtime_source.contains("runtime.resizeFrame = requestAnimationFrame"));
    assert!(!runtime_source.contains("runtime.handleResize = scheduleApply"));
}

#[test]
fn every_visible_timeline_uses_the_conversation_layout() {
    let source = page_source();

    assert!(source.contains(
        "const conversation = [...document.querySelectorAll(\n              adapter.selectors.conversation\n            )].find(isVisible);"
    ));
    assert!(source.contains("const isConversation = Boolean(conversation);"));
    assert!(source.contains("isConversation ? 'conversation' : 'other'"));
    assert!(source.contains("isConversation ? conversation : null"));
}

#[test]
fn conversation_composer_backdrop_is_removed_without_hiding_composer() {
    let source = page_source();

    assert!(PLATFORM_RUNTIME_CSS.contains("[data-ct-slot=\"composer.backdrop\"]"));
    assert!(PLATFORM_RUNTIME_CSS.contains("display: none !important"));
    assert!(source.contains("getComputedStyle(composerSticky).position === 'sticky'"));
    assert!(source.contains("style.pointerEvents === 'none'"));
    assert!(source.contains("backgroundImage.includes('gradient')"));
}

#[test]
fn composer_editor_tracks_native_compact_and_expanded_layouts() {
    let source = page_source();

    assert!(PLATFORM_RUNTIME_CSS.contains(
        "[data-ct-slot=\"composer.editor\"][data-ct-composer-layout=\"compact\"][contenteditable=\"true\"]"
    ));
    assert!(PLATFORM_RUNTIME_CSS.contains("min-height: 1.25rem !important"));
    assert!(PLATFORM_RUNTIME_CSS.contains("padding-block: 0 !important"));
    assert!(PLATFORM_RUNTIME_CSS.contains("line-height: 1.25rem !important"));
    assert!(PLATFORM_RUNTIME_CSS.contains("margin-block: 0 !important"));
    assert!(source.contains("const syncComposerLayout = editor =>"));
    assert!(source.contains("frameHeight > 0 && frameHeight <= 44"));
    assert!(source.contains("? 'compact'\n              : 'expanded'"));
    assert!(source.contains("const composerLayoutObserver = new ResizeObserver"));
    assert!(source.contains("composerLayoutObserver.observe(target)"));
    assert!(source.contains("runtime?.composerLayoutObserver?.disconnect()"));
}

#[test]
fn main_content_frame_has_no_native_separator() {
    assert!(PLATFORM_RUNTIME_CSS.contains("[data-ct-slot=\"main.content.frame\"]"));
    assert!(PLATFORM_RUNTIME_CSS.contains("border: 0 !important"));
    assert!(PLATFORM_RUNTIME_CSS.contains("box-shadow: none !important"));
}

#[test]
fn home_layout_separates_stage_from_composer_region() {
    let source = page_source();

    assert!(source.contains("let homeLayout = homeSource"));
    assert!(source.contains("const homeBranch = directLayoutBranch(homeSource)"));
    assert!(source.contains("const composerRegion = directLayoutBranch(composerRoot)"));
    assert!(source.contains("homeLayout.setAttribute('data-ct-slot', 'home.layout')"));
    assert!(source.contains("composerRegion.setAttribute('data-ct-slot', 'composer.region')"));
}

#[test]
fn composer_slots_follow_the_visible_editor_across_routes() {
    let source = page_source();

    assert!(source.contains(
        "const editors = [...document.querySelectorAll(adapter.selectors.composer)]"
    ));
    assert!(source.contains("const editor = editors.find(isVisible) ?? editors[0] ?? null"));
    assert!(source.contains("'[data-ct-slot=\"composer\"], [data-ct-slot^=\"composer.\"]'"));
}

#[test]
fn composer_context_uses_the_remote_utility_bar_selector() {
    let source = page_source();

    assert!(source.contains("adapter.selectors.composerUtilityBar"));
    assert!(source.contains("const utilityBarSurface = utilityBar?.parentElement ?? null"));
    assert!(source.contains("contextSlot = utilityBarSurface"));
    assert!(source.contains("!contextSlot?.contains(button)"));
    assert!(PLATFORM_RUNTIME_CSS.contains("[data-ct-slot=\"composer.context\"]"));
    assert!(PLATFORM_RUNTIME_CSS.contains("backdrop-filter: none !important"));
}

#[test]
fn runtime_survives_settings_and_root_replacement() {
    let source = page_source();

    assert!(source.contains("let runtimeInstalled = false"));
    assert!(source.contains("if (!runtimeInstalled\n              && !adapter.probes.every"));
    assert!(source.contains(
        "const appMain = appMainCandidates.find(isVisible) ?? appMainCandidates[0] ?? null"
    ));
    assert!(source.contains("eventTarget: document"));
    assert!(
        source.contains("runtime.observer.observe(document.documentElement, observeOptions)")
    );
    assert!(source.contains("runtime.root = document.getElementById('root')"));
    assert!(source.contains("runtime.lastApplyError ="));
}

#[test]
fn conversation_content_and_resize_do_not_remount_layout() {
    let source = page_source();
    let runtime_source = source.as_str();

    assert!(runtime_source.contains("const scheduleConversationContent = roots =>"));
    assert!(runtime_source.contains("const scheduleMetrics = () =>"));
    assert!(runtime_source.contains("runtime.handleResize = () =>"));
    assert!(runtime_source.contains("runtime.resizeFrame = requestAnimationFrame"));
    assert!(
        runtime_source.contains("if (conversationRoots.length) scheduleConversationContent")
    );
    assert!(!runtime_source.contains("runtime.handleResize = scheduleApply"));
    assert!(!runtime_source.contains("const scheduleResponsiveLayout = () =>"));
    assert!(!runtime_source.contains(
        "return routeBoundaryChanged || relevantNodeChanged || Boolean(target?.closest"
    ));
}

#[test]
fn home_input_refreshes_only_home_slots() {
    let source = page_source();
    let runtime_source = source.as_str();

    assert!(runtime_source.contains("const scheduleHomeRefresh = () =>"));
    assert!(runtime_source.contains("runtime.handleInput = event =>"));
    assert!(runtime_source.contains("mountHero(appMain, editor, homeSlots)"));
    assert!(runtime_source.contains("syncComposerLayout(editor)"));
    assert!(runtime_source.contains("scheduleHomeRefresh();"));
    assert!(
        !runtime_source.contains(
            "composerRoot?.contains(event.target)) {{\n              scheduleApply();"
        )
    );
    assert_eq!(
        runtime_source
            .matches("if (runtime?.homeFrame) cancelAnimationFrame(runtime.homeFrame)")
            .count(),
        2
    );
    assert!(runtime_source.contains(
        "if (existingRuntime?.homeFrame) cancelAnimationFrame(existingRuntime.homeFrame)"
    ));
}

#[test]
fn legacy_runtime_fallback_releases_every_observer_and_frame() {
    let source = page_source();
    let fallback = source
        .split("else {{\n            existingRuntime?.observer?.disconnect();")
        .nth(1)
        .and_then(|source| {
            source
                .split("document.querySelectorAll('[data-ct-managed-asset]')")
                .next()
        })
        .expect("legacy runtime fallback");

    assert!(fallback.contains("existingRuntime?.composerLayoutObserver?.disconnect()"));
    for frame in [
        "frame",
        "homeFrame",
        "contentFrame",
        "metricsFrame",
        "resizeFrame",
    ] {
        assert!(
            fallback.contains(&format!(
                "if (existingRuntime?.{frame}) cancelAnimationFrame(existingRuntime.{frame})"
            )),
            "missing cleanup for {frame}"
        );
    }
}

#[test]
fn home_hero_uses_content_flow_and_workspace_panels_use_compact_home() {
    let source = page_source();
    let runtime_source = source.as_str();

    assert!(runtime_source.contains("homeStage.prepend(hero)"));
    assert!(runtime_source.contains("viewport.append(copy, media, divider)"));
    assert!(runtime_source.contains("hero.prepend(heroViewport)"));
    assert!(!runtime_source.contains("main.prepend(hero)"));
    assert!(runtime_source.contains("const hasWorkspacePanel = Boolean"));
    assert!(runtime_source.contains("editorHasDraft(editor) || hasWorkspacePanel"));
    assert!(runtime_source.contains("if (!hasWorkspacePanel)"));
    assert!(
        PLATFORM_RUNTIME_CSS
            .contains(":root[data-ct-view=\"home\"] [data-ct-mount=\"home.hero\"]")
    );
    assert!(
        PLATFORM_RUNTIME_CSS.contains(
            "[data-ct-slot=\"home.hero.viewport\"] {\n  position: relative !important"
        )
    );
    assert!(
        !PLATFORM_RUNTIME_CSS.contains(
            "[data-ct-slot=\"home.hero.viewport\"] {\n  position: absolute !important"
        )
    );
    assert!(PLATFORM_RUNTIME_CSS.contains("width: 100% !important"));
    assert!(PLATFORM_RUNTIME_CSS.contains("[data-ct-slot=\"home.hero.viewport\"]"));
    assert!(
        PLATFORM_RUNTIME_CSS
            .contains("overflow: var(--ct-home-hero-viewport-overflow, hidden) !important")
    );
    assert!(
        PLATFORM_RUNTIME_CSS
            .contains("overflow: var(--ct-home-hero-media-overflow, hidden) !important")
    );
    assert!(
        !PLATFORM_RUNTIME_CSS
            .contains(":root[data-ct-view=\"home\"] [data-ct-slot=\"home.content.region\"]")
    );
    assert!(
        PLATFORM_RUNTIME_CSS
            .contains("max-width: var(--ct-home-hero-max-width, 1080px) !important")
    );
    assert!(PLATFORM_RUNTIME_CSS.contains("transform: none !important"));
    assert!(PLATFORM_RUNTIME_CSS.contains("[data-ct-workspace-panel-region]"));
}

#[test]
fn windows_shell_surfaces_and_retheme_brand_are_injected_by_the_engine() {
    let source = page_source();
    let runtime_source = source.as_str();

    assert!(platform_runtime_css(Platform::Windows).ends_with(WINDOWS_PLATFORM_RUNTIME_CSS));
    assert!(runtime_source.contains("[data-ct-native-titlebar]"));
    assert!(runtime_source.contains("markSlot(applicationMenus, 'titlebar', slots)"));
    assert!(!runtime_source.contains("'titlebar.menu',\n                slots"));
    let deprecated_titlebar_slot = ["titlebar", ".menu"].concat();
    assert!(!runtime_source.contains(&deprecated_titlebar_slot));
    assert!(
        runtime_source.contains(":root[data-ct-view=\"home\"] [data-ct-slot=\"home.stage\"]")
    );
    assert!(runtime_source.contains("justify-content: flex-start !important"));
    assert!(runtime_source.contains("padding-top: 0 !important"));
    assert!(runtime_source.contains("[data-ct-slot=\"settings.content\"]"));
    assert!(runtime_source.contains("[data-ct-slot=\"settings.frame\"]"));
    assert!(runtime_source.contains("[data-ct-slot=\"settings.toolbar\"]"));
    assert!(runtime_source.contains("margin-top: 0 !important"));
    assert!(runtime_source.contains("display: none !important"));
    assert!(runtime_source.contains("border-radius: 0 !important"));
    assert!(runtime_source.contains("label.textContent = 'ReTheme'"));
    assert!(!runtime_source.contains("label.textContent = 'reclaude'"));
}

#[test]
fn card_label_targets_the_text_leaf_and_footer_brand_has_vertical_space() {
    let source = page_source();

    assert!(source.contains("let label = labelContainer"));
    assert!(source.contains("if (textChildren.length !== 1) break"));
    assert!(source.contains("label = textChildren[0]"));
    assert!(PLATFORM_RUNTIME_CSS.contains("top: 0 !important"));
    assert!(PLATFORM_RUNTIME_CSS.contains("height: 32px !important"));
    assert!(PLATFORM_RUNTIME_CSS.contains("align-self: stretch !important"));
    assert!(!PLATFORM_RUNTIME_CSS.contains("top: 4px !important"));
    assert!(source.contains("version.textContent = `v${{themeVersion}}`"));
    assert!(source.contains("if (hasPro) slots.push('sidebar.footer.brand.pro')"));
    assert!(source.contains("'--sidebar-footer-height', '78px'"));
}

#[test]
fn neutralizes_native_shell_overlays_without_removing_theme_borders() {
    assert!(PLATFORM_RUNTIME_CSS.contains(":where([data-ct-slot=\"titlebar\"])"));
    assert!(PLATFORM_RUNTIME_CSS.contains("background: transparent !important"));
    assert!(PLATFORM_RUNTIME_CSS.contains("backdrop-filter: none !important"));
    assert!(PLATFORM_RUNTIME_CSS.contains(":where([data-ct-slot=\"sidebar\"])::after"));
    assert!(
        PLATFORM_RUNTIME_CSS.contains(":where([data-ct-slot=\"settings.sidebar\"])::after")
    );
    assert!(
        PLATFORM_RUNTIME_CSS.contains(":where([data-ct-slot=\"sidebar.resize.indicator\"])",)
    );
    assert!(PLATFORM_RUNTIME_CSS.contains(":where([data-ct-slot=\"main\"])",));
    assert!(PLATFORM_RUNTIME_CSS.contains(":where([data-ct-slot=\"main.fade\"])",));
    assert!(
        !PLATFORM_RUNTIME_CSS
            .contains(":where([data-ct-slot=\"sidebar\"]) {\n  border-right:",)
    );
    assert!(
        !PLATFORM_RUNTIME_CSS
            .contains(":where([data-ct-slot=\"settings.sidebar\"]) {\n  border-right:",)
    );
}

#[test]
fn settings_slots_cover_cards_rows_and_switch_parts_without_localized_copy() {
    let source = page_source();

    for slot in [
        "settings.surface",
        "settings.frame",
        "settings.canvas",
        "settings.toolbar",
        "settings.body",
        "settings.section",
        "settings.section.title",
        "settings.card",
        "settings.row",
        "settings.row.title",
        "settings.row.description",
        "settings.row.separator",
        "settings.switch",
        "settings.switch.checked",
        "settings.switch.track",
        "settings.switch.track.checked",
        "settings.switch.thumb",
    ] {
        assert!(source.contains(&format!("'{slot}'")), "missing {slot}");
    }
    assert!(source.contains("control.firstElementChild"));
    assert!(source.contains("control.firstElementChild?.firstElementChild"));
    assert!(source.contains("item.getAttribute('aria-current') === 'page'"));
    assert!(source.contains("markSettings(settingsItems, appMain, slots)"));
    assert!(source.contains("const settingsContent = legacyContent ?? settingsMain"));
    assert!(
        source.contains("settingsContent.querySelector(adapter.selectors.mainContentFrame)")
    );
    assert!(source.contains("const toolbar = [...canvas.children].find"));
    assert!(source.contains("const settingsOpen = Boolean"));
    assert!(source.contains("settingsOpen && target?.closest(adapter.selectors.main)"));
    assert!(source.contains("parseFloat(style.borderTopLeftRadius) >= 8"));
    assert!(source.contains("isCheckedControl(control)"));
    for localized_copy in ["设置", "Settings"] {
        assert!(!source.contains(&format!("textContent === '{localized_copy}'")));
    }
}

#[test]
fn menu_slots_use_aria_roles_and_refresh_dynamic_state() {
    let source = page_source();

    assert!(source.contains("document.querySelectorAll('[role=\"menu\"]')"));
    assert!(source.contains(
        "'[role=\"menuitem\"], [role=\"menuitemcheckbox\"], [role=\"menuitemradio\"]'"
    ));
    assert!(source.contains("item.hasAttribute('data-highlighted')"));
    assert!(source.contains("menu.querySelectorAll('[role=\"separator\"], hr')"));
    assert!(source.contains("'data-highlighted'"));
    assert!(source.contains("'data-state'"));
}
