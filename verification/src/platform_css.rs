//! Style that the engine adds to every theme.
use vstd::prelude::*;

use crate::platform::Platform;
use crate::text::{chars_of, push_text, text_of};

verus! {

/// The style that every theme gets on a platform.
pub open spec fn platform_css(platform: Platform) -> Seq<char> {
    match platform {
        Platform::Windows => PLATFORM_RUNTIME_CSS@ + seq!['\n'] + WINDOWS_PLATFORM_RUNTIME_CSS@,
        _ => PLATFORM_RUNTIME_CSS@,
    }
}

/// The style that every theme gets on a platform.
pub fn platform_runtime_css(platform: Platform) -> (result: String)
    ensures
        result@ == platform_css(platform),
{
    match platform {
        Platform::Windows => {
            let mut css = chars_of(PLATFORM_RUNTIME_CSS);
            css.push('\n');
            push_text(&mut css, WINDOWS_PLATFORM_RUNTIME_CSS);
            assert(css@ =~= platform_css(platform));
            text_of(css.as_slice())
        },
        _ => PLATFORM_RUNTIME_CSS.to_owned(),
    }
}

/// Style that every theme gets.
pub const PLATFORM_RUNTIME_CSS: &'static str = r#"
[data-ct-slot="app.shell"] {
  position: relative !important;
  isolation: isolate !important;
}
[data-ct-mount="app.background"] {
  position: absolute !important;
  z-index: -1 !important;
  inset: 0 !important;
  overflow: hidden !important;
  pointer-events: none !important;
}
[data-ct-mount="app.background"] > img {
  display: block !important;
  width: 100% !important;
  height: 100% !important;
}
:where([data-ct-slot="titlebar"]) {
  border: 0 !important;
  background: transparent !important;
  backdrop-filter: none !important;
  -webkit-backdrop-filter: none !important;
  box-shadow: none !important;
}
:where([data-ct-slot="titlebar"])::before,
:where([data-ct-slot="titlebar"])::after {
  display: none !important;
  border: 0 !important;
  background: transparent !important;
  box-shadow: none !important;
  content: none !important;
}
:where([data-ct-slot="sidebar"])::after {
  display: none !important;
  content: none !important;
}
:where([data-ct-slot="settings.sidebar"])::after {
  display: none !important;
  background: transparent !important;
  content: none !important;
}
:where([data-ct-slot="sidebar.resize.indicator"]) {
  display: none !important;
  opacity: 0 !important;
}
:where([data-ct-slot="main"]) {
  box-shadow: none !important;
}
:where([data-ct-slot="main.fade"]) {
  display: none !important;
}
:where([data-ct-slot="main.content.frame"]) {
  border: 0 !important;
  box-shadow: none !important;
}
:where([data-ct-slot="main.content.frame"])::before,
:where([data-ct-slot="main.content.frame"])::after {
  display: none !important;
  border: 0 !important;
  box-shadow: none !important;
  content: none !important;
}
[data-ct-slot="composer.context"] {
  opacity: 1 !important;
  backdrop-filter: none !important;
  -webkit-backdrop-filter: none !important;
}
[data-ct-slot="home.card"] {
  position: relative !important;
  isolation: isolate !important;
}
[data-ct-mount="home.card.background"] {
  position: absolute !important;
  z-index: -1 !important;
  inset: 0 !important;
  overflow: hidden !important;
  border-radius: inherit !important;
  pointer-events: none !important;
}
:root[data-ct-view="home-compact"] [data-ct-slot="home.prompt"],
:root[data-ct-view="home-compact"] [data-ct-slot="home.cards"] {
  display: none !important;
}
:root[data-ct-view="home-compact"] [data-ct-slot="home.layout"] {
  display: flex !important;
  flex-direction: column !important;
  width: 100% !important;
  max-width: none !important;
  min-height: 100% !important;
  align-self: stretch !important;
}
:root[data-ct-view="home-compact"] [data-ct-slot="home.stage"] {
  display: none !important;
}
:root[data-ct-view="home-compact"] [data-ct-slot="conversation.banner"] {
  margin-right: auto !important;
  margin-left: auto !important;
  align-self: center !important;
}
:root[data-ct-view="home-compact"] [data-ct-slot="composer.region"] {
  flex: 1 0 0% !important;
  min-width: 0 !important;
  justify-content: flex-end !important;
}
:root[data-ct-view="home"] [data-ct-slot="home.stage"] {
  display: flex !important;
  flex-direction: column !important;
  align-items: stretch !important;
  justify-content: center !important;
  width: 100% !important;
  padding-top: var(--ct-home-hero-top, 0px) !important;
}
:root[data-ct-view="home"] [data-ct-mount="home.hero"] {
  position: relative !important;
  top: auto !important;
  right: auto !important;
  bottom: auto !important;
  left: auto !important;
  box-sizing: border-box !important;
  flex: 0 0 auto !important;
  width: 100% !important;
  max-width: var(--ct-home-hero-max-width, 1080px) !important;
  margin-right: auto !important;
  margin-bottom: var(--ct-home-hero-gap, 24px) !important;
  margin-left: auto !important;
  transform: none !important;
}
[data-ct-slot="home.hero.viewport"] {
  position: relative !important;
  display: grid !important;
  grid-column: 1 / -1 !important;
  grid-row: 1 / -1 !important;
  grid-template-columns: inherit !important;
  grid-template-rows: inherit !important;
  grid-template-areas: inherit !important;
  align-items: inherit !important;
  justify-items: inherit !important;
  box-sizing: border-box !important;
  width: 100% !important;
  height: 100% !important;
  min-height: inherit !important;
  overflow: var(--ct-home-hero-viewport-overflow, hidden) !important;
  border-radius: inherit !important;
  pointer-events: none !important;
}
[data-ct-workspace-panel-region] {
  z-index: var(--ct-workspace-panel-z-index, 35) !important;
  isolation: isolate !important;
}
[data-ct-slot="home.hero"],
[data-ct-slot="conversation.banner"] {
  overflow: visible !important;
}
[data-ct-slot="conversation.banner"] {
  flex: 0 0 auto !important;
}
[data-ct-slot="conversation.stage"] {
  position: relative !important;
  display: flex !important;
  flex-direction: column !important;
  min-width: 0 !important;
  min-height: 0 !important;
  border: 0 !important;
  box-shadow: none !important;
}
[data-ct-slot="conversation.header"] {
  display: flex !important;
  flex-direction: column !important;
  box-sizing: border-box !important;
  flex: 0 0 auto !important;
  width: 100% !important;
  min-width: 0 !important;
  padding-top: var(--ct-conversation-header-safe-top, 0px) !important;
}
[data-ct-slot="conversation.header.content"] {
  display: flex !important;
  box-sizing: border-box !important;
  width: var(--ct-conversation-content-width, 100%) !important;
  max-width: none !important;
  min-width: 0 !important;
  margin-right: 0 !important;
  margin-left: var(--ct-conversation-content-left, 0px) !important;
  padding-inline: 0 !important;
}
[data-ct-slot="conversation.header.content"] > [data-ct-slot="conversation.banner"] {
  width: 100% !important;
  max-width: 100% !important;
  margin-inline: 0 !important;
  align-self: stretch !important;
}
[data-ct-slot="conversation.viewport"] {
  position: relative !important;
  flex: 1 1 0% !important;
  width: 100% !important;
  height: auto !important;
  min-width: 0 !important;
  min-height: 0 !important;
  overflow: hidden !important;
  border: 0 !important;
  box-shadow: none !important;
}
[data-ct-slot="composer.backdrop"] {
  display: none !important;
}
:root[data-ct-theme] [data-ct-slot="composer.editor"][data-ct-composer-layout="compact"][contenteditable="true"] {
  box-sizing: border-box !important;
  min-height: 1.25rem !important;
  padding-block: 0 !important;
  line-height: 1.25rem !important;
}
:root[data-ct-theme] [data-ct-slot="composer.editor"][data-ct-composer-layout="compact"][contenteditable="true"] > p {
  margin-block: 0 !important;
}
:where([data-ct-slot="conversation.stage"], [data-ct-slot="conversation.viewport"])::before,
:where([data-ct-slot="conversation.stage"], [data-ct-slot="conversation.viewport"])::after {
  border: 0 !important;
  box-shadow: none !important;
}
[data-ct-slot="home.hero.media"],
[data-ct-slot="conversation.banner.media"] {
  overflow: hidden !important;
  border-radius: inherit !important;
}
[data-ct-slot="home.hero.media"] {
  overflow: var(--ct-home-hero-media-overflow, hidden) !important;
}
[data-ct-slot="home.hero.foreground"] {
  position: absolute !important;
  z-index: var(--ct-home-hero-foreground-z-index, var(--ct-banner-foreground-z-index, 3)) !important;
  right: var(--ct-home-hero-foreground-right, var(--ct-banner-foreground-right, 4%)) !important;
  bottom: var(--ct-home-hero-foreground-bottom, var(--ct-banner-foreground-bottom, 0px)) !important;
  display: block !important;
  width: var(--ct-home-hero-foreground-width, var(--ct-banner-foreground-width, min(34%, 360px))) !important;
  height: auto !important;
  overflow: visible !important;
  pointer-events: none !important;
}
[data-ct-slot="conversation.banner.foreground"] {
  position: absolute !important;
  z-index: var(--ct-conversation-banner-foreground-z-index, var(--ct-banner-foreground-z-index, 3)) !important;
  right: var(--ct-conversation-banner-foreground-right, var(--ct-banner-foreground-right, 4%)) !important;
  bottom: var(--ct-conversation-banner-foreground-bottom, var(--ct-banner-foreground-bottom, 0px)) !important;
  display: block !important;
  width: var(--ct-conversation-banner-foreground-width, var(--ct-banner-foreground-width, min(34%, 360px))) !important;
  height: auto !important;
  overflow: visible !important;
  pointer-events: none !important;
}
[data-ct-slot="home.hero.foreground.asset"],
[data-ct-slot="conversation.banner.foreground.asset"] {
  display: block !important;
  height: auto !important;
  object-fit: contain !important;
  object-position: center bottom !important;
}
[data-ct-slot="home.hero.foreground.asset"] {
  width: 100% !important;
}
[data-ct-slot="conversation.banner.foreground.asset"] {
  width: auto !important;
  max-width: 100% !important;
  height: auto !important;
  max-height: var(--ct-conversation-banner-foreground-safe-height, none) !important;
  margin-left: auto !important;
}
[data-ct-slot="sidebar.header"] {
  position: relative !important;
  isolation: isolate !important;
}
[data-ct-mount="sidebar.header.background"] {
  position: absolute !important;
  z-index: -1 !important;
  inset: 0 !important;
  overflow: hidden !important;
  pointer-events: none !important;
}
[data-ct-mount="sidebar.header.background"] > img {
  display: block !important;
  width: 100% !important;
  height: 100% !important;
}
[data-ct-slot="sidebar.footer"] {
  box-sizing: border-box !important;
  min-height: 78px !important;
  padding-top: 32px !important;
}
[data-ct-mount="sidebar.footer.brand"] {
  position: absolute !important;
  z-index: 2 !important;
  top: 0 !important;
  right: 12px !important;
  left: 12px !important;
  display: flex !important;
  box-sizing: border-box !important;
  align-items: center !important;
  justify-content: space-between !important;
  gap: 8px !important;
  height: 32px !important;
  min-height: 32px !important;
  padding: 0 !important;
  border: 0 !important;
  border-bottom: 0 !important;
  box-shadow: none !important;
  color: var(--ct-text-secondary, currentColor);
  font-size: 11px;
  line-height: 18px !important;
  letter-spacing: 0.02em;
  pointer-events: none !important;
}
[data-ct-mount="sidebar.footer.brand"]::before,
[data-ct-mount="sidebar.footer.brand"]::after {
  display: none !important;
  content: none !important;
}
[data-ct-slot="sidebar.footer.brand.label"] {
  display: inline-flex !important;
  align-self: stretch !important;
  align-items: center !important;
  min-width: 0;
  margin-right: auto;
  font-size: 14px !important;
  font-weight: 650;
  line-height: 18px !important;
  letter-spacing: 0.01em;
}
[data-ct-slot="sidebar.footer.brand.timer"],
[data-ct-slot="sidebar.footer.brand.version"] {
  display: inline-flex !important;
  align-self: stretch !important;
  align-items: center !important;
  justify-content: center !important;
  margin-left: auto;
  color: var(--ct-color-accent, currentColor);
  font-size: 11px;
  font-variant-numeric: tabular-nums;
  font-weight: 650;
  letter-spacing: 0.04em;
}
[data-ct-slot="sidebar.footer.brand.pro"] {
  display: inline-flex !important;
  align-items: center !important;
  justify-content: center !important;
  margin-left: auto;
  padding: 2px 5px;
  border: 1px solid var(--ct-border-strong, currentColor);
  border-radius: 999px;
  background: var(--ct-color-accent-soft, transparent);
  color: var(--ct-color-accent, currentColor);
  font-size: 9px;
  font-weight: 700;
  letter-spacing: 0.04em;
}
"#;

/// Style that every theme gets on Windows besides.
pub const WINDOWS_PLATFORM_RUNTIME_CSS: &'static str = r#"
:where([data-ct-native-titlebar]) {
  border: 0 !important;
  background: transparent !important;
  backdrop-filter: none !important;
  -webkit-backdrop-filter: none !important;
  box-shadow: none !important;
}
:where([data-ct-native-titlebar])::before,
:where([data-ct-native-titlebar])::after {
  display: none !important;
  border: 0 !important;
  background: transparent !important;
  box-shadow: none !important;
  content: none !important;
}
:root[data-ct-view="home"] [data-ct-slot="home.stage"] {
  justify-content: flex-start !important;
  padding-top: 0 !important;
}
:where([data-ct-slot="settings.content"], [data-ct-slot="settings.surface"], [data-ct-slot="settings.frame"], [data-ct-slot="settings.canvas"], [data-ct-slot="settings.body"]) {
  border: 0 !important;
  border-radius: 0 !important;
  background: transparent !important;
  box-shadow: none !important;
}
:where([data-ct-slot="settings.content"], [data-ct-slot="settings.surface"], [data-ct-slot="settings.frame"], [data-ct-slot="settings.canvas"], [data-ct-slot="settings.body"])::before,
:where([data-ct-slot="settings.content"], [data-ct-slot="settings.surface"], [data-ct-slot="settings.frame"], [data-ct-slot="settings.canvas"], [data-ct-slot="settings.body"])::after {
  border: 0 !important;
  background: transparent !important;
  box-shadow: none !important;
}
:where([data-ct-slot="settings.frame"]) {
  margin-top: 0 !important;
}
:where([data-ct-slot="settings.toolbar"]) {
  display: none !important;
}
"#;

/// Every theme gets the same style on every platform, and on Windows what that platform needs behind
/// it, on a new line.
pub proof fn windows_adds_to_the_common_style(
    windows: String,
    macos: String,
    other: String,
)
    requires
        call_ensures(platform_runtime_css, (Platform::Windows,), windows),
        call_ensures(platform_runtime_css, (Platform::MacOs,), macos),
        call_ensures(platform_runtime_css, (Platform::Other,), other),
    ensures
        macos@ == PLATFORM_RUNTIME_CSS@,
        other@ == macos@,
        windows@ == macos@ + "\n"@ + WINDOWS_PLATFORM_RUNTIME_CSS@,
{
    reveal_strlit("\n");
    assert("\n"@ =~= seq!['\n']);
}

} // verus!
