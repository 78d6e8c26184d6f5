//! Scripts that run in the page of the themed window.
//!
//! A template holds named placeholders in braces; its doubled braces stand for single ones.
use vstd::prelude::*;

verus! {

/// Page function that takes a theme off the page again.
pub const PAGE_RESTORE_THEME_FUNCTION: &'static str = r#"(expectedSessionId = null, closeWindow = false, revokeAssets = true) => {
  const runtime = window[runtimeKey];
  if (expectedSessionId !== null && runtime?.sessionId !== expectedSessionId) return false;
  runtime?.observer?.disconnect();
  runtime?.schemeObserver?.disconnect();
  runtime?.composerLayoutObserver?.disconnect();
  if (runtime?.colorSchemeMedia && runtime?.syncColorScheme) {
    runtime.colorSchemeMedia.removeEventListener('change', runtime.syncColorScheme);
  }
  const eventTarget = runtime?.eventTarget ?? runtime?.root;
  if (eventTarget && runtime?.handleInput) {
    eventTarget.removeEventListener('input', runtime.handleInput, true);
  }
  if (eventTarget && runtime?.handleNavigation) {
    eventTarget.removeEventListener('click', runtime.handleNavigation, true);
  }
  if (runtime?.handleResize) {
    window.removeEventListener('resize', runtime.handleResize);
  }
  if (runtime?.frame) cancelAnimationFrame(runtime.frame);
  if (runtime?.homeFrame) cancelAnimationFrame(runtime.homeFrame);
  if (runtime?.contentFrame) cancelAnimationFrame(runtime.contentFrame);
  if (runtime?.metricsFrame) cancelAnimationFrame(runtime.metricsFrame);
  if (runtime?.resizeFrame) cancelAnimationFrame(runtime.resizeFrame);
  if (runtime?.leaseTimer) clearInterval(runtime.leaseTimer);
  if (revokeAssets) runtime?.revokeAssets?.();
  if (window[runtimeKey] === runtime) delete window[runtimeKey];
  document.querySelectorAll('[data-ct-home-prompt-native]').forEach(node => {
    const display = node.getAttribute('data-ct-home-prompt-display');
    const priority = node.getAttribute('data-ct-home-prompt-display-priority') ?? '';
    if (display === null) node.style.removeProperty('display');
    else node.style.setProperty('display', display, priority);
    node.removeAttribute('data-ct-home-prompt-native');
    node.removeAttribute('data-ct-home-prompt-display');
    node.removeAttribute('data-ct-home-prompt-display-priority');
  });
  document.getElementById('codex-theme-runtime-style')?.remove();
  document.documentElement?.removeAttribute('data-ct-theme');
  document.documentElement?.removeAttribute('data-ct-view');
  document.documentElement?.removeAttribute('data-ct-color-scheme');
  document.documentElement?.style.removeProperty('--ct-home-card-count');
  document.documentElement?.style.removeProperty('--ct-titlebar-safe-top');
  document.querySelectorAll('[data-ct-slot="conversation.stage"]').forEach(node => {
    node.style.removeProperty('--ct-conversation-banner-clearance');
    node.style.removeProperty('--ct-conversation-summary-width');
    node.style.removeProperty('--ct-conversation-content-left');
    node.style.removeProperty('--ct-conversation-content-width');
    node.style.removeProperty('--ct-conversation-header-safe-top');
  });
  document.querySelectorAll('[data-ct-sidebar-footer-height]').forEach(node => {
    const original = node.getAttribute('data-ct-sidebar-footer-height');
    if (original) node.style.setProperty('--sidebar-footer-height', original);
    else node.style.removeProperty('--sidebar-footer-height');
    node.removeAttribute('data-ct-sidebar-footer-height');
  });
  document.querySelectorAll('[data-ct-mount]').forEach(node => node.remove());
  document.querySelectorAll('[data-ct-slot]').forEach(node => node.removeAttribute('data-ct-slot'));
  document.querySelectorAll('[data-ct-composer-layout]')
    .forEach(node => node.removeAttribute('data-ct-composer-layout'));
  document.querySelectorAll('[data-ct-workspace-panel]')
    .forEach(node => node.removeAttribute('data-ct-workspace-panel'));
  document.querySelectorAll('[data-ct-workspace-panel-region]')
    .forEach(node => node.removeAttribute('data-ct-workspace-panel-region'));
  document.querySelectorAll('[data-ct-native-titlebar]')
    .forEach(node => node.removeAttribute('data-ct-native-titlebar'));
  const removed = !document.getElementById('codex-theme-runtime-style')
    && !document.documentElement?.hasAttribute('data-ct-theme')
    && !document.documentElement?.hasAttribute('data-ct-color-scheme')
    && !document.querySelector('[data-ct-slot]')
    && !document.querySelector('[data-ct-mount]');
  if (closeWindow) setTimeout(() => window.close(), 0);
  return removed;
}"#;

/// Page function that takes the theme off once its lease has run out.
pub const PAGE_LEASE_CONTROLLER_FUNCTION: &'static str = r#"(runtimeKey, runtime, pageLeaseMilliseconds) => {
  runtime.leaseExpiresAt = Math.min(
    Date.now() + pageLeaseMilliseconds,
    runtime.hardExpiresAt ?? Number.POSITIVE_INFINITY
  );
  runtime.syncThemeStatus?.();
  runtime.leaseTimer = setInterval(() => {
    if (window[runtimeKey] !== runtime) {
      clearInterval(runtime.leaseTimer);
      return;
    }
    const now = Date.now();
    runtime.syncThemeStatus?.();
    if (now >= runtime.leaseExpiresAt || (runtime.hardExpiresAt && now >= runtime.hardExpiresAt)) {
      runtime.restoreTheme(runtime.sessionId, true);
    }
  }, 1000);
}"#;

/// Template of the expression that puts a theme on the page: the theme and its language.
pub const APPLY_THEME_SETUP: &'static str = r#"(() => {{
          const baseConfig = {runtime_config};
          let config = baseConfig;
          let requestedLocale = {locale};
"#;

/// Template of the expression that puts a theme on the page: the choice of the language.
pub const APPLY_THEME_LOCALE: &'static str = r#"          const selectLocale = () => {{
            const requested = requestedLocale.replaceAll('_', '-');
            const entries = Object.entries(baseConfig.locales ?? {{}});
            const exact = entries.find(([locale]) => locale.toLowerCase() === requested.toLowerCase());
            const language = requested.split('-')[0].toLowerCase();
            const fallback = entries.find(([locale]) => locale.toLowerCase() === language);
            return (exact ?? fallback)?.[1] ?? {{}};
          }};
          const syncLocaleConfig = () => {{
            const locale = selectLocale();
            const experience = locale.experience ?? {{}};
            const localizedHero = experience.homeHero ?? {{}};
            const localizedConversation = experience.conversationBanner ?? {{}};
            config = {{
              ...baseConfig,
              hero: {{
                ...baseConfig.hero,
                ...localizedHero,
                divider: baseConfig.hero.divider
                  ? {{ ...baseConfig.hero.divider, ...(localizedHero.divider ?? {{}}) }}
                  : null
              }},
              homePrompt: experience.homePrompt
                ? {{ ...(baseConfig.homePrompt ?? {{}}), ...experience.homePrompt }}
                : baseConfig.homePrompt,
              conversationBanner: baseConfig.conversationBanner
                ? {{ ...baseConfig.conversationBanner, ...localizedConversation }}
                : null
            }};
          }};
          syncLocaleConfig();
"#;

/// Template of the expression that puts a theme on the page: the application and the version of the
/// theme.
pub const APPLY_THEME_VERSIONS: &'static str = r#"          const adapter = {adapter_config};
          const hasPro = {has_pro};
          const themeVersion = {theme_version};
          const runtimeKey = '__codexThemeRuntime';
"#;

/// Template of the expression that puts a theme on the page: the session.
pub const APPLY_THEME_SESSION: &'static str = r#"          const sessionId = {session_id};
          const revokeAssetsUrl = {revoke_assets_url};
          const hardExpiresAt = {hard_expires_at};
"#;

/// Template of the expression that puts a theme on the page: the lease.
pub const APPLY_THEME_LEASE: &'static str = r#"          const pageLeaseMilliseconds = {page_lease_milliseconds};
          const restoreTheme = {restore_theme_function};
          const installPageLease = {lease_controller_function};
"#;

/// Template of the expression that puts a theme on the page: the time that is left, and the removal
/// of a theme that is already there.
pub const APPLY_THEME_STATUS: &'static str = r#"          const syncThemeStatus = () => {{
            const timer = document.querySelector(
              '[data-ct-slot="sidebar.footer.brand.timer"]'
            );
            if (!timer || !hardExpiresAt) return;
            const remaining = Math.max(0, Math.ceil((hardExpiresAt - Date.now()) / 1000));
            const minutes = Math.floor(remaining / 60);
            const seconds = remaining % 60;
            const value = `${{String(minutes).padStart(2, '0')}}:${{String(seconds).padStart(2, '0')}}`;
            if (timer.textContent !== value) timer.textContent = value;
          }};
          let assetsRevoked = false;
          const revokeAssets = () => {{
            if (assetsRevoked) return;
            assetsRevoked = true;
            const beacon = new Image();
            beacon.onload = beacon.onerror = () => beacon.remove();
            beacon.src = revokeAssetsUrl;
          }};
          const existingRuntime = window[runtimeKey];
          if (existingRuntime?.sessionId === sessionId && existingRuntime?.apply) {{
            const now = Date.now();
            if (existingRuntime.hardExpiresAt && now >= existingRuntime.hardExpiresAt) {{
              existingRuntime.restoreTheme?.(existingRuntime.sessionId, true);
              return [];
            }}
            existingRuntime.leaseExpiresAt = Math.min(
              now + pageLeaseMilliseconds,
              existingRuntime.hardExpiresAt ?? Number.POSITIVE_INFINITY
            );
            existingRuntime.syncThemeStatus?.();
            const refreshedSlots = existingRuntime.apply();
            if (refreshedSlots) existingRuntime.slots = refreshedSlots;
            return existingRuntime.slots ?? [];
          }}
          if (existingRuntime?.restoreTheme) {{
            existingRuntime.restoreTheme(existingRuntime.sessionId, false, true);
          }}
          else {{
            existingRuntime?.observer?.disconnect();
            existingRuntime?.schemeObserver?.disconnect();
            existingRuntime?.composerLayoutObserver?.disconnect();
            if (existingRuntime?.colorSchemeMedia && existingRuntime?.syncColorScheme) {{
              existingRuntime.colorSchemeMedia.removeEventListener('change', existingRuntime.syncColorScheme);
            }}
            const eventTarget = existingRuntime?.eventTarget ?? existingRuntime?.root;
            if (eventTarget && existingRuntime?.handleInput) {{
              eventTarget.removeEventListener('input', existingRuntime.handleInput, true);
            }}
            if (eventTarget && existingRuntime?.handleNavigation) {{
              eventTarget.removeEventListener('click', existingRuntime.handleNavigation, true);
            }}
            if (existingRuntime?.handleResize) {{
              window.removeEventListener('resize', existingRuntime.handleResize);
            }}
            if (existingRuntime?.frame) cancelAnimationFrame(existingRuntime.frame);
            if (existingRuntime?.homeFrame) cancelAnimationFrame(existingRuntime.homeFrame);
            if (existingRuntime?.contentFrame) cancelAnimationFrame(existingRuntime.contentFrame);
            if (existingRuntime?.metricsFrame) cancelAnimationFrame(existingRuntime.metricsFrame);
            if (existingRuntime?.resizeFrame) cancelAnimationFrame(existingRuntime.resizeFrame);
            if (existingRuntime?.leaseTimer) clearInterval(existingRuntime.leaseTimer);
            existingRuntime?.revokeAssets?.();
          }}
          document.querySelectorAll('[data-ct-managed-asset]').forEach(node => node.remove());

          const restoreSidebarFooterHeight = () => {{
            document.querySelectorAll('[data-ct-sidebar-footer-height]').forEach(node => {{
              const original = node.getAttribute('data-ct-sidebar-footer-height');
              if (original) node.style.setProperty('--sidebar-footer-height', original);
              else node.style.removeProperty('--sidebar-footer-height');
              node.removeAttribute('data-ct-sidebar-footer-height');
            }});
          }};
          restoreSidebarFooterHeight();

          const colorSchemeMedia = matchMedia('(prefers-color-scheme: light)');
          const syncColorScheme = () => {{
            const root = document.documentElement;
            if (!root) return 'dark';
            const scheme = root.classList.contains('electron-light')
              ? 'light'
              : root.classList.contains('electron-dark')
                ? 'dark'
                : colorSchemeMedia.matches ? 'light' : 'dark';
            root.setAttribute('data-ct-color-scheme', scheme);
            syncManagedAssetSchemes();
            return scheme;
          }};

"#;

/// Template of the expression that puts a theme on the page: assets, slots, menus and pages.
pub const APPLY_THEME_ASSETS: &'static str = r#"          const createMount = (slot, className) => {{
            const mount = document.createElement('div');
            mount.dataset.ctMount = slot;
            mount.dataset.ctSlot = slot;
            mount.className = className;
            return mount;
          }};

          const createAssetMount = (slot, assetUrl) => {{
            const mount = document.createElement('span');
            mount.dataset.ctMount = slot;
            mount.dataset.ctSlot = slot;
            mount.dataset.ctManagedAsset = '';
            mount.setAttribute('aria-hidden', 'true');
            mount.style.pointerEvents = 'none';
            const image = document.createElement('img');
            image.alt = '';
            image.draggable = false;
            image.src = assetUrl;
            mount.appendChild(image);
            return mount;
          }};

          const assetsBySlot = new Map(
            (config.assets ?? []).map(asset => [asset.slot, asset])
          );

          const assetUrlForScheme = asset => {{
            if (!asset) return null;
            const scheme = document.documentElement?.dataset.ctColorScheme;
            return (scheme === 'light' ? asset.lightAssetUrl : asset.darkAssetUrl)
              ?? asset.assetUrl
              ?? null;
          }};

          const syncManagedAssetSchemes = () => {{
            document.querySelectorAll('[data-ct-managed-asset][data-ct-mount]')
              .forEach(mount => {{
                const asset = assetsBySlot.get(mount.getAttribute('data-ct-mount'));
                const assetUrl = assetUrlForScheme(asset);
                const image = mount.querySelector('img');
                if (image && assetUrl && image.src !== assetUrl) image.src = assetUrl;
              }});
          }};

          const syncAssetMount = (parent, slot, placement = 'append') => {{
            if (!parent) return null;
            const asset = assetsBySlot.get(slot);
            const assetUrl = assetUrlForScheme(asset);
            if (!assetUrl) return null;
            let mount = [...parent.children].find(
              child => child.getAttribute('data-ct-mount') === slot
            );
            if (!mount) {{
              mount = createAssetMount(slot, assetUrl);
              if (['app.background', 'main.background', 'main.overlay', 'main.frame', 'sidebar.frame'].includes(slot)) {{
                mount.style.position = 'absolute';
                mount.style.inset = '0';
              }}
              if (placement === 'prepend') parent.prepend(mount);
              else parent.appendChild(mount);
            }} else {{
              mount.dataset.ctSlot = slot;
              const image = mount.querySelector('img');
              if (image && image.src !== assetUrl) image.src = assetUrl;
            }}
            return mount;
          }};

          const syncCardArrowAsset = card => {{
            const asset = assetsBySlot.get('home.card.arrow.asset');
            const assetUrl = assetUrlForScheme(asset);
            if (!assetUrl) return null;
            let mount = [...card.children].find(
              child => child.getAttribute('data-ct-mount') === 'home.card.arrow.asset'
            );
            if (!mount) {{
              mount = document.createElement('span');
              mount.dataset.ctMount = 'home.card.arrow.asset';
              mount.dataset.ctSlot = 'home.card.arrow';
              mount.dataset.ctManagedAsset = '';
              mount.setAttribute('aria-hidden', 'true');
              mount.style.pointerEvents = 'none';
              const image = document.createElement('img');
              image.dataset.ctSlot = 'home.card.arrow.asset';
              image.alt = '';
              image.draggable = false;
              image.src = assetUrl;
              mount.appendChild(image);
              card.appendChild(mount);
            }}
            return mount;
          }};

          const setSlot = (node, slot) => {{
            if (node?.getAttribute('data-ct-slot') !== slot) {{
              node?.setAttribute('data-ct-slot', slot);
            }}
          }};

          const markSlot = (nodes, slot, slots) => {{
            const matched = [...nodes].filter(Boolean);
            matched.forEach(node => setSlot(node, slot));
            if (matched.length) slots.push(slot);
            return matched;
          }};

          const isCheckedControl = control =>
            control?.getAttribute('aria-checked') === 'true'
            || control?.getAttribute('data-state') === 'checked';

          const markMenus = slots => {{
            const menus = [...document.querySelectorAll('[role="menu"]')];
            markSlot(menus, 'menu', slots);
            menus.forEach(menu => {{
              const items = [...menu.querySelectorAll(
                '[role="menuitem"], [role="menuitemcheckbox"], [role="menuitemradio"]'
              )];
              markSlot(items, 'menu.item', slots);
              markSlot(
                items.filter(item => item.hasAttribute('data-highlighted')
                  || item.getAttribute('aria-current') === 'page'
                  || item.getAttribute('aria-current') === 'true'),
                'menu.item.active',
                slots
              );
              markSlot(
                items.filter(item => isCheckedControl(item)),
                'menu.item.checked',
                slots
              );
              markSlot(
                items.flatMap(item => [...item.querySelectorAll('svg')]),
                'menu.icon',
                slots
              );
              const shortcuts = items.flatMap(item => [...item.querySelectorAll('kbd')]);
              markSlot(shortcuts, 'menu.shortcut', slots);
              markSlot(
                items.flatMap(item => [...item.querySelectorAll('span, div, p')])
                  .filter(label => label.textContent?.trim()
                    && !label.querySelector('svg')
                    && !label.closest('kbd')
                    && !label.querySelector('kbd')),
                'menu.label',
                slots
              );
              markSlot(
                menu.querySelectorAll('[role="separator"], hr'),
                'menu.separator',
                slots
              );
            }});
          }};

          const markPage = (main, anchor, slots) => {{
            if (!main || !anchor || !main.contains(anchor)) return;
            let page = anchor;
            while (page.parentElement && page.parentElement !== main) {{
              page = page.parentElement;
            }}
            if (page === main) return;
            markSlot([page], 'page', slots);
            const pageRect = page.getBoundingClientRect();
            const surface = [...page.querySelectorAll('*')]
              .filter(node => {{
                if (!node.contains(anchor)) return false;
                const rect = node.getBoundingClientRect();
                const style = getComputedStyle(node);
                const hasSurface = style.backgroundColor !== 'rgba(0, 0, 0, 0)'
                  || style.backgroundImage !== 'none'
                  || style.boxShadow !== 'none'
                  || parseFloat(style.borderTopWidth) > 0;
                return hasSurface
                  && rect.width >= pageRect.width * 0.7
                  && rect.height >= pageRect.height * 0.7;
              }})
              .sort((left, right) =>
                right.getBoundingClientRect().width * right.getBoundingClientRect().height
                - left.getBoundingClientRect().width * left.getBoundingClientRect().height
              )[0];
            if (surface && surface !== page) markSlot([surface], 'page.surface', slots);
            const contentRoot = surface ?? page;
            const content = [...contentRoot.querySelectorAll('*')]
              .filter(node => node.contains(anchor))
              .find(node => ['auto', 'scroll'].includes(getComputedStyle(node).overflowY));
            if (content && content !== surface && content !== page) {{
              markSlot([content], 'page.content', slots);
            }}
            const contentRect = (content ?? surface ?? page).getBoundingClientRect();
            const header = [...page.children].find(node => {{
              if (node === content || node === surface || node.contains(anchor)) return false;
              const rect = node.getBoundingClientRect();
              return rect.height >= 28
                && rect.height <= 120
                && rect.width >= pageRect.width * 0.6
                && rect.bottom <= contentRect.top + 4;
            }});
            if (header) markSlot([header], 'page.header', slots);
          }};

"#;

/// Template of the expression that puts a theme on the page: the settings view.
pub const APPLY_THEME_SETTINGS: &'static str = r#"          const markSettings = (settingsItems, settingsMain, slots) => {{
            if (!settingsItems.length) return;
            let settingsNav = settingsItems[0].closest('nav');
            if (!settingsNav) {{
              let candidate = settingsItems[0].parentElement;
              while (candidate && !settingsItems.every(item => candidate.contains(item))) {{
                candidate = candidate.parentElement;
              }}
              settingsNav = candidate;
            }}
            const settingsSidebar = settingsNav?.parentElement;
            const legacySettings = settingsSidebar?.parentElement;
            const legacyContent = legacySettings
              ? [...legacySettings.children].find(node => node !== settingsSidebar)
              : null;
            const settingsContent = legacyContent ?? settingsMain;
            let settings = settingsSidebar;
            while (settings && settingsContent && !settings.contains(settingsContent)) {{
              settings = settings.parentElement;
            }}
            const settingsNavRect = settingsNav?.getBoundingClientRect();
            const settingsSidebarRect = settingsSidebar?.getBoundingClientRect();
            const settingsHeader = settingsNavRect && settingsSidebarRect
              ? [...settingsSidebar.children].filter(node => {{
                  if (node === settingsNav) return false;
                  const rect = node.getBoundingClientRect();
                  return rect.height >= 28
                    && rect.width >= settingsSidebarRect.width * 0.8
                    && rect.top < settingsNavRect.top;
                }})
              : [];
            markSlot([settings], 'settings', slots);
            markSlot(settingsHeader, 'settings.header', slots);
            markSlot([settingsSidebar], 'settings.sidebar', slots);
            markSlot([settingsNav], 'settings.nav', slots);
            markSlot(settingsItems, 'settings.nav.item', slots);
            markSlot(
              settingsItems.filter(item => item.getAttribute('aria-current') === 'page'),
              'settings.nav.item.active',
              slots
            );
            markSlot([settingsContent], 'settings.content', slots);
            if (!settingsContent) return;

            const settingsFrame = settingsContent.querySelector(
              '[data-ct-slot="main.content.frame"]'
            ) ?? (adapter.selectors.mainContentFrame
              ? settingsContent.querySelector(adapter.selectors.mainContentFrame)
              : null);
            markSlot([settingsFrame], 'settings.frame', slots);

            const surface = [...settingsContent.children]
              .filter(node => isVisible(node))
              .sort((left, right) =>
                right.getBoundingClientRect().width * right.getBoundingClientRect().height
                - left.getBoundingClientRect().width * left.getBoundingClientRect().height
              )[0];
            markSlot([surface], 'settings.surface', slots);
            const body = [surface, ...(surface?.querySelectorAll('*') ?? [])]
              .filter(Boolean)
              .filter(node => ['auto', 'scroll'].includes(getComputedStyle(node).overflowY))
              .sort((left, right) =>
                right.getBoundingClientRect().width * right.getBoundingClientRect().height
                - left.getBoundingClientRect().width * left.getBoundingClientRect().height
              )[0];
            markSlot([body], 'settings.body', slots);
            const canvas = body?.parentElement;
            if (canvas && canvas !== surface && canvas !== settingsContent) {{
              markSlot([canvas], 'settings.canvas', slots);
              const bodyRect = body.getBoundingClientRect();
              const canvasRect = canvas.getBoundingClientRect();
              const toolbar = [...canvas.children].find(node => {{
                if (node === body || !isVisible(node)) return false;
                const rect = node.getBoundingClientRect();
                return rect.height >= 28
                  && rect.height <= 80
                  && rect.width >= canvasRect.width * 0.7
                  && rect.top <= bodyRect.top;
              }});
              markSlot([toolbar], 'settings.toolbar', slots);
            }}

            const settingsControls = [...settingsContent.querySelectorAll(
              'input, textarea, select, [role="switch"], [role="checkbox"], '
                + '[role="radio"], [role="slider"], [role="combobox"]'
            )];
            const rowAnchors = [...new Set([
              ...settingsControls,
              ...settingsContent.querySelectorAll('button, [role="button"]')
            ])];
            const contentRect = (body ?? surface ?? settingsContent).getBoundingClientRect();
            const rows = [...new Set(rowAnchors.map(anchor => {{
              let candidate = anchor.parentElement;
              while (candidate && candidate !== settingsContent) {{
                const rect = candidate.getBoundingClientRect();
                if (rect.width >= contentRect.width * 0.45
                  && rect.height >= 32
                  && rect.height <= 180
                  && candidate.textContent?.trim()) {{
                  return candidate;
                }}
                candidate = candidate.parentElement;
              }}
              return null;
            }}).filter(Boolean))];
            const cards = [];
            const addCard = candidate => {{
              if (cards.some(card => candidate.contains(card))) return;
              cards.filter(card => card.contains(candidate))
                .forEach(card => cards.splice(cards.indexOf(card), 1));
              cards.push(candidate);
            }};
            rows.forEach(row => {{
              let candidate = row.parentElement;
              while (candidate && candidate !== settingsContent) {{
                const style = getComputedStyle(candidate);
                const parentStyle = candidate.parentElement
                  ? getComputedStyle(candidate.parentElement)
                  : null;
                const hasBoundary = parseFloat(style.borderTopLeftRadius) >= 8
                  || parseFloat(style.borderTopWidth) > 0
                  || style.boxShadow !== 'none'
                  || style.backgroundImage !== 'none'
                  || (style.backgroundColor !== 'rgba(0, 0, 0, 0)'
                    && style.backgroundColor !== parentStyle?.backgroundColor);
                if (hasBoundary) {{
                  addCard(candidate);
                  break;
                }}
                const rowGroups = [...candidate.children].filter(child =>
                  rows.some(item => child === item || child.contains(item))
                );
                if (rowGroups.length >= 2) {{
                  addCard(candidate);
                  break;
                }}
                candidate = candidate.parentElement;
              }}
            }});
            if (!cards.length) {{
              [...settingsContent.querySelectorAll('div')].forEach(candidate => {{
                const rect = candidate.getBoundingClientRect();
                const style = getComputedStyle(candidate);
                if (candidate.children.length > 0
                  && candidate.querySelector('input, select, [role="switch"], [role="checkbox"]')
                  && rect.width >= contentRect.width * 0.45
                  && rect.height >= 32
                  && parseFloat(style.borderTopLeftRadius) >= 8
                  && !cards.some(card => candidate.contains(card))) {{
                  addCard(candidate);
                }}
              }});
            }}
            const sections = [...new Set([
              ...(body?.querySelectorAll('section') ?? []),
              ...cards.map(card => card.parentElement)
                .filter(section => section && section !== body && section !== surface)
            ])];
            markSlot(sections, 'settings.section', slots);
            sections.forEach(section => {{
              let title = section.firstElementChild;
              while (title) {{
                const textChildren = [...title.children]
                  .filter(node => node.textContent?.trim());
                if (textChildren.length !== 1) break;
                title = textChildren[0];
              }}
              if (title?.textContent?.trim()) markSlot([title], 'settings.section.title', slots);
            }});
            markSlot(cards, 'settings.card', slots);
            cards.forEach(card => {{
              const cardRows = rows.filter(row => card.contains(row));
              markSlot(cardRows, 'settings.row', slots);
              markSlot(cardRows.slice(0, -1), 'settings.row.separator', slots);
              cardRows.forEach(row => {{
                const control = row.querySelector(
                  'input, textarea, select, [role="switch"], [role="checkbox"], '
                    + '[role="radio"], [role="slider"], [role="combobox"]'
                );
                let copy = [...row.children].find(node =>
                  !node.contains(control) && node.textContent?.trim()
                );
                while (copy) {{
                  const textChildren = [...copy.children]
                    .filter(node => node.textContent?.trim() && !node.contains(control));
                  if (textChildren.length !== 1) break;
                  copy = textChildren[0];
                }}
                const copyParts = [...(copy?.children ?? [])]
                  .filter(node => node.textContent?.trim());
                if (copyParts.length) {{
                  markSlot([copyParts[0]], 'settings.row.title', slots);
                  markSlot(copyParts.slice(1), 'settings.row.description', slots);
                }} else if (copy?.textContent?.trim()) {{
                  markSlot([copy], 'settings.row.title', slots);
                }}
              }});
            }});

            const switches = settingsControls.filter(control => control.matches('[role="switch"]'));
            markSlot(
              settingsControls.filter(control => !isCheckedControl(control)),
              'settings.control',
              slots
            );
            markSlot(
              settingsControls.filter(control => isCheckedControl(control)),
              'settings.control.checked',
              slots
            );
            const switchContainers = switches.map(control => control.parentElement);
            markSlot(
              switchContainers.filter((_, index) => !isCheckedControl(switches[index])),
              'settings.switch',
              slots
            );
            markSlot(
              switchContainers.filter((_, index) => isCheckedControl(switches[index])),
              'settings.switch.checked',
              slots
            );
            const uncheckedTracks = switches
              .filter(control => !isCheckedControl(control))
              .map(control => control.firstElementChild);
            const checkedTracks = switches
              .filter(control => isCheckedControl(control))
              .map(control => control.firstElementChild);
            markSlot(uncheckedTracks, 'settings.switch.track', slots);
            markSlot(checkedTracks, 'settings.switch.track.checked', slots);
            markSlot(
              switches.map(control => control.firstElementChild?.firstElementChild),
              'settings.switch.thumb',
              slots
            );
          }};

"#;

/// Template of the expression that puts a theme on the page: measures of the native layout.
pub const APPLY_THEME_LAYOUT: &'static str = r#"          const isVisible = node => {{
            if (!node?.isConnected) return false;
            const rect = node.getBoundingClientRect();
            const style = getComputedStyle(node);
            return rect.width > 0
              && rect.height > 0
              && style.display !== 'none'
              && style.visibility !== 'hidden';
          }};

          const setStyleProperty = (node, property, value) => {{
            if (!node || node.style.getPropertyValue(property) === value) return;
            node.style.setProperty(property, value);
          }};

          const syncTitlebarSafeTop = appMain => {{
            if (!appMain) return;
            const mainTop = appMain.getBoundingClientRect().top;
            const titlebarBottom = [...document.querySelectorAll(adapter.selectors.titlebar)]
              .filter(isVisible)
              .reduce(
                (bottom, titlebar) => Math.max(bottom, titlebar.getBoundingClientRect().bottom),
                mainTop
              );
            setStyleProperty(
              document.documentElement,
              '--ct-titlebar-safe-top',
              `${{Math.round(Math.max(0, titlebarBottom - mainTop))}}px`
            );
          }};

          const clearConversationHeaderMetrics = stage => {{
            if (!stage) return;
            stage.style.removeProperty('--ct-conversation-content-left');
            stage.style.removeProperty('--ct-conversation-content-width');
            stage.style.removeProperty('--ct-conversation-header-safe-top');
          }};

          const syncConversationHeaderLayout = () => {{
            const stage = document.querySelector('[data-ct-slot="conversation.stage"]');
            const header = stage?.querySelector(
              ':scope > [data-ct-slot="conversation.header"]'
            );
            const composerRoot = [...document.querySelectorAll(
              adapter.selectors.composerRoot
            )].find(isVisible);
            if (!stage || !header || !composerRoot) {{
              clearConversationHeaderMetrics(stage);
              return;
            }}
            const stageRect = stage.getBoundingClientRect();
            const composerRect = composerRoot.getBoundingClientRect();
            if (stageRect.width <= 0 || composerRect.width <= 0) {{
              clearConversationHeaderMetrics(stage);
              return;
            }}
            const contentLeft = Math.max(
              0,
              Math.min(stageRect.width, composerRect.left - stageRect.left)
            );
            const contentRight = Math.max(
              0,
              Math.min(stageRect.width - contentLeft, stageRect.right - composerRect.right)
            );
            const contentWidth = Math.max(0, stageRect.width - contentLeft - contentRight);
            const titlebarBottom = [...document.querySelectorAll(adapter.selectors.titlebar)]
              .filter(isVisible)
              .reduce(
                (bottom, titlebar) => Math.max(bottom, titlebar.getBoundingClientRect().bottom),
                stageRect.top
              );
            setStyleProperty(
              stage,
              '--ct-conversation-content-left',
              `${{contentLeft.toFixed(2)}}px`
            );
            setStyleProperty(
              stage,
              '--ct-conversation-content-width',
              `${{contentWidth.toFixed(2)}}px`
            );
            setStyleProperty(
              stage,
              '--ct-conversation-header-safe-top',
              `${{Math.max(0, titlebarBottom - stageRect.top).toFixed(2)}}px`
            );
          }};

          const editorHasDraft = editor => {{
            if (!editor) return false;
            const input = editor.matches('textarea, input, [contenteditable="true"]')
              ? editor
              : editor.querySelector('textarea, input, [contenteditable="true"]');
            const value = input && 'value' in input ? input.value : input?.textContent;
            return Boolean(value?.trim());
          }};

          const syncComposerLayout = editor => {{
            if (!editor?.isConnected) return;
            const frameHeight = editor.parentElement?.getBoundingClientRect().height ?? 0;
            const layout = frameHeight > 0 && frameHeight <= 44
              ? 'compact'
              : 'expanded';
            if (editor.getAttribute('data-ct-composer-layout') !== layout) {{
              editor.setAttribute('data-ct-composer-layout', layout);
            }}
          }};

          let composerLayoutTarget = null;
          const composerLayoutObserver = new ResizeObserver(() => {{
            syncComposerLayout(
              document.querySelector('[data-ct-slot="composer.editor"]')
            );
          }});
          const observeComposerLayout = editor => {{
            const target = editor?.parentElement ?? null;
            if (composerLayoutTarget === target) return;
            composerLayoutObserver.disconnect();
            composerLayoutTarget = target;
            if (target) composerLayoutObserver.observe(target);
          }};

          const restoreHomePrompt = () => {{
            document.querySelectorAll('[data-ct-home-prompt-native]').forEach(node => {{
              const display = node.getAttribute('data-ct-home-prompt-display');
              const priority = node.getAttribute('data-ct-home-prompt-display-priority') ?? '';
              if (display === null) node.style.removeProperty('display');
              else node.style.setProperty('display', display, priority);
              node.removeAttribute('data-ct-home-prompt-native');
              node.removeAttribute('data-ct-home-prompt-display');
              node.removeAttribute('data-ct-home-prompt-display-priority');
            }});
            document.querySelectorAll('[data-ct-mount="home.prompt.title"]')
              .forEach(node => node.remove());
          }};

          const clearHomeSlotMarkers = () => {{
            document.querySelectorAll('[data-ct-slot^="home."]').forEach(node => {{
              if (!node.closest('[data-ct-mount]')) node.removeAttribute('data-ct-slot');
            }});
          }};

          const clearHomeSlots = main => {{
            restoreHomePrompt();
            main.querySelectorAll(
              '[data-ct-mount="home.hero"], [data-ct-mount="home.card.background"]'
            ).forEach(node => node.remove());
            clearHomeSlotMarkers();
            document.documentElement.style.removeProperty('--ct-home-card-count');
          }};

          const clearConversationLayout = main => {{
            main.querySelectorAll(
              '[data-ct-mount="conversation.header"], '
                + '[data-ct-mount="conversation.banner"], '
                + '[data-ct-mount="conversation.summary.decoration"]'
            )
              .forEach(node => node.remove());
            main.querySelectorAll(
              '[data-ct-slot="conversation.header"], '
                + '[data-ct-slot="conversation.header.content"], '
                + '[data-ct-slot="conversation.stage"], '
                + '[data-ct-slot="conversation.viewport"], '
                + '[data-ct-slot="conversation.summary.region"], '
                + '[data-ct-slot="conversation.summary"]'
            ).forEach(node => {{
              node.style.removeProperty('--ct-conversation-banner-clearance');
              node.style.removeProperty('--ct-conversation-summary-width');
              node.style.removeProperty('--ct-conversation-content-left');
              node.style.removeProperty('--ct-conversation-content-width');
              node.style.removeProperty('--ct-conversation-header-safe-top');
              node.removeAttribute('data-ct-slot');
            }});
          }};

"#;

/// Template of the expression that puts a theme on the page: the conversation view.
pub const APPLY_THEME_CONVERSATION: &'static str = r#"          const markConversationSummary = (stage, slots) => {{
            const summarySelector = adapter.selectors.conversationSummaryRegion;
            const summary = summarySelector
              ? [...document.querySelectorAll(summarySelector)].find(isVisible)
              : null;
            const clearSummary = () => {{
              document.querySelectorAll(
                '[data-ct-slot="conversation.summary.region"], '
                  + '[data-ct-slot="conversation.summary"]'
              ).forEach(node => node.removeAttribute('data-ct-slot'));
              document.querySelectorAll(
                '[data-ct-mount="conversation.summary.decoration"]'
              ).forEach(node => node.remove());
              if (stage.style.getPropertyValue('--ct-conversation-summary-width')) {{
                stage.style.removeProperty('--ct-conversation-summary-width');
              }}
            }};
            if (!summary) {{
              clearSummary();
              return;
            }}
            let summaryRegion = summary;
            while (
              summaryRegion.parentElement
              && summaryRegion.parentElement !== stage
              && getComputedStyle(summaryRegion).position !== 'absolute'
            ) {{
              summaryRegion = summaryRegion.parentElement;
            }}
            if (getComputedStyle(summaryRegion).position !== 'absolute') {{
              clearSummary();
              return;
            }}
            document.querySelectorAll('[data-ct-slot="conversation.summary.region"]')
              .forEach(node => {{
                if (node !== summaryRegion) node.removeAttribute('data-ct-slot');
              }});
            setSlot(summaryRegion, 'conversation.summary.region');
            const summarySurface = [...summary.children].find(
              node => !node.matches('[data-ct-mount]')
            ) ?? summary;
            document.querySelectorAll('[data-ct-slot="conversation.summary"]')
              .forEach(node => {{
                if (node !== summarySurface) node.removeAttribute('data-ct-slot');
              }});
            setSlot(summarySurface, 'conversation.summary');
            slots.push('conversation.summary.region', 'conversation.summary');
            const summaryDecorationUrl = config.conversationSummaryDecoration?.assetUrl;
            document.querySelectorAll(
              '[data-ct-mount="conversation.summary.decoration"]'
            ).forEach(node => {{
              if (!summaryDecorationUrl || node.parentElement !== summarySurface) node.remove();
            }});
            if (summaryDecorationUrl) {{
              let decoration = summarySurface.querySelector(
                ':scope > [data-ct-mount="conversation.summary.decoration"]'
              );
              if (!decoration) {{
                decoration = createAssetMount(
                  'conversation.summary.decoration',
                  summaryDecorationUrl
                );
                summarySurface.appendChild(decoration);
              }}
              slots.push('conversation.summary.decoration');
            }}
            const stageRect = stage.getBoundingClientRect();
            const summaryRect = summaryRegion.getBoundingClientRect();
            const summaryWidth = Math.max(
              0,
              Math.min(stageRect.width, stageRect.right - summaryRect.left)
            );
            setStyleProperty(
              stage,
              '--ct-conversation-summary-width',
              `${{Math.round(summaryWidth)}}px`
            );
          }};

          const syncConversationBannerForeground = () => {{
            const foreground = document.querySelector(
              '[data-ct-slot="conversation.banner.foreground"]'
            );
            const banner = foreground?.closest('[data-ct-slot="conversation.banner"]');
            if (!foreground || !banner || !isVisible(banner)) return;
            let clipTop = window.visualViewport?.offsetTop ?? 0;
            for (
              let ancestor = banner.parentElement;
              ancestor;
              ancestor = ancestor.parentElement
            ) {{
              if (!['auto', 'scroll', 'hidden', 'clip'].includes(
                getComputedStyle(ancestor).overflowY
              )) continue;
              clipTop = Math.max(
                clipTop,
                ancestor.getBoundingClientRect().top + ancestor.clientTop
              );
            }}
            const foregroundBottom = foreground.getBoundingClientRect().bottom;
            setStyleProperty(
              foreground,
              '--ct-conversation-banner-foreground-safe-height',
              `${{Math.max(0, Math.floor(foregroundBottom - clipTop))}}px`
            );
          }};

          const mountConversationBanner = (main, editor, slots, target) => {{
            const currentBanner = main.querySelector(
              '[data-ct-mount="conversation.banner"]'
            );
            if (!isVisible(editor) || !isVisible(target)) {{
              clearConversationLayout(main);
              return;
            }}
            const isConversationTarget = target.matches(adapter.selectors.conversation);
            const viewport = isConversationTarget ? target.parentElement : null;
            const stage = viewport?.parentElement;
            if (isConversationTarget) {{
              if (!stage || stage === main || viewport.parentElement !== stage) {{
                clearConversationLayout(main);
                return;
              }}
              main.querySelectorAll('[data-ct-slot="conversation.stage"]')
                .forEach(node => {{
                  if (node === stage) return;
                  node.querySelector(':scope > [data-ct-mount="conversation.header"]')?.remove();
                  node.style.removeProperty('--ct-conversation-summary-width');
                  clearConversationHeaderMetrics(node);
                  node.removeAttribute('data-ct-slot');
                }});
              main.querySelectorAll('[data-ct-slot="conversation.viewport"]')
                .forEach(node => {{
                  if (node !== viewport) node.removeAttribute('data-ct-slot');
                }});
              setSlot(stage, 'conversation.stage');
              setSlot(viewport, 'conversation.viewport');
              slots.push('conversation.stage', 'conversation.viewport');
            }}
            const bannerConfig = config.conversationBanner;
            if (!bannerConfig) {{
              currentBanner?.remove();
              main.querySelector('[data-ct-mount="conversation.header"]')?.remove();
              return;
            }}
            let banner = currentBanner;
            if (!banner) {{
              banner = createMount('conversation.banner', 'ct-conversation-banner');
              const copy = document.createElement('div');
              copy.dataset.ctSlot = 'conversation.banner.copy';
              const eyebrow = document.createElement('p');
              eyebrow.dataset.ctSlot = 'conversation.banner.eyebrow';
              eyebrow.textContent = bannerConfig.eyebrow;
              const title = document.createElement('h2');
              title.dataset.ctSlot = 'conversation.banner.title';
              title.textContent = bannerConfig.title;
              const description = document.createElement('p');
              description.dataset.ctSlot = 'conversation.banner.description';
              description.textContent = bannerConfig.description;
              copy.append(eyebrow, title, description);
              const media = document.createElement('div');
              media.dataset.ctSlot = 'conversation.banner.media';
              const image = document.createElement('img');
              image.dataset.ctSlot = 'conversation.banner.media.asset';
              image.alt = '';
              image.draggable = false;
              image.src = bannerConfig.assetUrl;
              image.style.objectFit = bannerConfig.fit;
              image.style.objectPosition = bannerConfig.position;
              media.appendChild(image);
              const foreground = bannerConfig.foregroundAssetUrl
                ? createAssetMount(
                    'conversation.banner.foreground',
                    bannerConfig.foregroundAssetUrl
                  )
                : null;
              if (foreground) {{
                foreground.querySelector('img').dataset.ctSlot =
                  'conversation.banner.foreground.asset';
              }}
              banner.append(copy, media);
              if (foreground) banner.appendChild(foreground);
            }}
            const bannerEyebrow = banner.querySelector(
              '[data-ct-slot="conversation.banner.eyebrow"]'
            );
            const bannerTitle = banner.querySelector(
              '[data-ct-slot="conversation.banner.title"]'
            );
            const bannerDescription = banner.querySelector(
              '[data-ct-slot="conversation.banner.description"]'
            );
            if (bannerEyebrow.textContent !== bannerConfig.eyebrow) {{
              bannerEyebrow.textContent = bannerConfig.eyebrow;
            }}
            if (bannerTitle.textContent !== bannerConfig.title) {{
              bannerTitle.textContent = bannerConfig.title;
            }}
            if (bannerDescription.textContent !== bannerConfig.description) {{
              bannerDescription.textContent = bannerConfig.description;
            }}
            if (isConversationTarget) {{
              let header = stage.querySelector(
                ':scope > [data-ct-mount="conversation.header"]'
              );
              if (!header) {{
                header = createMount('conversation.header', 'ct-conversation-header');
                const content = document.createElement('div');
                content.dataset.ctSlot = 'conversation.header.content';
                header.appendChild(content);
              }}
              setSlot(header, 'conversation.header');
              const content = header.firstElementChild;
              setSlot(content, 'conversation.header.content');
              if (header.parentElement !== stage || header.nextElementSibling !== viewport) {{
                stage.insertBefore(header, viewport);
              }}
              if (banner.parentElement !== content) {{
                content.appendChild(banner);
              }}
              syncConversationHeaderLayout();
            }} else if (banner.parentElement !== target || target.firstElementChild !== banner) {{
              target.prepend(banner);
            }}
            slots.push(
              ...(isConversationTarget
                ? ['conversation.header', 'conversation.header.content']
                : []),
              'conversation.banner',
              'conversation.banner.copy',
              'conversation.banner.eyebrow',
              'conversation.banner.title',
              'conversation.banner.description',
              'conversation.banner.media',
              'conversation.banner.media.asset'
            );
            if (banner.querySelector('[data-ct-slot="conversation.banner.foreground"]')) {{
              slots.push(
                'conversation.banner.foreground',
                'conversation.banner.foreground.asset'
              );
              syncConversationBannerForeground();
            }}
            if (isConversationTarget) markConversationSummary(stage, slots);
          }};

"#;

/// Template of the expression that puts a theme on the page: the home view.
pub const APPLY_THEME_HERO: &'static str = r#"          const mountHero = (main, editor, slots) => {{
            const homeSource = main.querySelector(adapter.selectors.homeSource);
            const composerRoot = editor?.closest(adapter.selectors.composerRoot) ?? editor;
            let homeLayout = homeSource;
            while (
              homeLayout
              && homeLayout !== main
              && composerRoot
              && !homeLayout.contains(composerRoot)
            ) {{
              homeLayout = homeLayout.parentElement;
            }}
            if (!composerRoot || homeLayout === main) homeLayout = null;
            const directLayoutBranch = descendant => {{
              if (!homeLayout?.contains(descendant)) return null;
              let branch = descendant;
              while (branch?.parentElement && branch.parentElement !== homeLayout) {{
                branch = branch.parentElement;
              }}
              return branch?.parentElement === homeLayout ? branch : null;
            }};
            const homeBranch = directLayoutBranch(homeSource);
            let homeStage = homeSource;
            while (
              homeStage
              && homeStage !== homeBranch
              && !homeStage.querySelector(adapter.selectors.homeCards)
            ) {{
              homeStage = homeStage.parentElement;
            }}
            const composerRegion = directLayoutBranch(composerRoot);
            const originalHomeContent = homeStage?.querySelector(adapter.selectors.homeCards);
            const homeCards = [...(originalHomeContent?.querySelectorAll('button') ?? [])];
            const conversation = [...document.querySelectorAll(
              adapter.selectors.conversation
            )].find(isVisible);
            const isConversation = Boolean(conversation);
            const hasHomePrompt = isVisible(editor)
              && !isConversation
              && Boolean(homeSource?.isConnected && homeLayout && homeBranch && composerRegion);
            const hasWorkspacePanel = Boolean(adapter.selectors.workspacePanel)
              && [...document.querySelectorAll(adapter.selectors.workspacePanel)]
                .some(isVisible);
            const isCompactHome = hasHomePrompt
              && (editorHasDraft(editor) || hasWorkspacePanel);
            const isHome = hasHomePrompt
              && (isCompactHome
                || (Boolean(originalHomeContent?.isConnected)
                  && homeCards.some(card => card.isConnected)));
            if (!isHome) {{
              document.documentElement.setAttribute(
                'data-ct-view',
                isConversation ? 'conversation' : 'other'
              );
              clearHomeSlots(main);
              main.querySelectorAll('[data-ct-mount^="decoration."]')
                .forEach(node => node.remove());
              mountConversationBanner(
                main,
                editor,
                slots,
                isConversation ? conversation : null
              );
              return;
            }}
            document.documentElement.setAttribute(
              'data-ct-view',
              isCompactHome ? 'home-compact' : 'home'
            );
            clearConversationLayout(main);
            clearHomeSlotMarkers();
            if (homeLayout) {{
              homeLayout.setAttribute('data-ct-slot', 'home.layout');
              slots.push('home.layout');
            }}
            if (homeBranch) {{
              homeBranch.setAttribute('data-ct-slot', 'home.content.region');
              slots.push('home.content.region');
            }}
            if (homeStage) {{
              homeStage.setAttribute('data-ct-slot', 'home.stage');
              slots.push('home.stage');
            }}
            if (composerRegion) {{
              composerRegion.setAttribute('data-ct-slot', 'composer.region');
              slots.push('composer.region');
            }}
            const homeBrand = adapter.selectors.homeBrand
              ? homeStage?.querySelector(adapter.selectors.homeBrand)
              : null;
            if (homeBrand) {{
              homeBrand.setAttribute('data-ct-slot', 'home.brand');
              slots.push('home.brand');
            }}
            if (homeSource) {{
              homeSource.setAttribute('data-ct-slot', 'home.prompt');
              slots.push('home.prompt');
              const promptConfig = config.homePrompt;
              let promptTitle = homeSource.querySelector(
                ':scope > [data-ct-mount="home.prompt.title"]'
              );
              const nativePromptNodes = [...homeSource.children]
                .filter(node => node !== promptTitle);
              if (promptConfig?.title) {{
                nativePromptNodes.forEach(node => {{
                  if (!node.hasAttribute('data-ct-home-prompt-native')) {{
                    const display = node.style.getPropertyValue('display');
                    if (display) node.setAttribute('data-ct-home-prompt-display', display);
                    const priority = node.style.getPropertyPriority('display');
                    if (priority) {{
                      node.setAttribute('data-ct-home-prompt-display-priority', priority);
                    }}
                    node.setAttribute('data-ct-home-prompt-native', '');
                  }}
                  node.removeAttribute('data-ct-slot');
                  node.style.setProperty('display', 'none', 'important');
                }});
                if (!promptTitle) {{
                  promptTitle = createMount('home.prompt.title', 'ct-home-prompt-title');
                  homeSource.appendChild(promptTitle);
                }}
                if (promptTitle.textContent !== promptConfig.title) {{
                  promptTitle.textContent = promptConfig.title;
                }}
                slots.push('home.prompt.title');
              }} else {{
                restoreHomePrompt();
                const nativeTitle = homeSource.firstElementChild;
                if (nativeTitle) {{
                  nativeTitle.setAttribute('data-ct-slot', 'home.prompt.title');
                  slots.push('home.prompt.title');
                }}
              }}
            }}
            if (originalHomeContent) {{
              originalHomeContent.setAttribute('data-ct-slot', 'home.cards');
              slots.push('home.cards');
              const cards = homeCards;
              document.documentElement.style.setProperty(
                '--ct-home-card-count',
                String(cards.length)
              );
              const cardsLayout = [];
              for (
                let node = originalHomeContent.parentElement;
                node && node !== homeStage;
                node = node.parentElement
              ) {{
                cardsLayout.push(node);
              }}
              markSlot(cardsLayout, 'home.cards.layout', slots);
              const cardsGrid = cards[0]?.parentElement?.parentElement;
              if (cardsGrid && cards.every(card => cardsGrid.contains(card))) {{
                cardsGrid.setAttribute('data-ct-slot', 'home.cards.grid');
                slots.push('home.cards.grid');
              }}
              cards.forEach(card => {{
                card.setAttribute('data-ct-slot', 'home.card');
                let background = [...card.children].find(node =>
                  node.getAttribute('data-ct-mount') === 'home.card.background'
                );
                if (!background) {{
                  background = createMount('home.card.background', 'ct-home-card-background');
                  background.setAttribute('aria-hidden', 'true');
                  background.style.pointerEvents = 'none';
                  card.prepend(background);
                }}
                const backgroundAsset = assetsBySlot.get('home.card.background');
                const backgroundAssetUrl = assetUrlForScheme(backgroundAsset);
                if (backgroundAssetUrl) {{
                  let backgroundImage = background.querySelector('img');
                  if (!backgroundImage) {{
                    backgroundImage = document.createElement('img');
                    backgroundImage.alt = '';
                    backgroundImage.draggable = false;
                    background.appendChild(backgroundImage);
                  }}
                  if (backgroundImage.src !== backgroundAssetUrl) {{
                    backgroundImage.src = backgroundAssetUrl;
                  }}
                }}
                const iconContainers = [...card.children].filter(node => node.querySelector('svg'));
                const icon = iconContainers[0];
                const nativeArrow = iconContainers.length > 1
                  ? iconContainers[iconContainers.length - 1]
                  : null;
                const labelContainer = [...card.children].find(
                  node => node !== icon && node !== nativeArrow && node.textContent?.trim()
                );
                let label = labelContainer;
                while (label) {{
                  const textChildren = [...label.children].filter(node =>
                    node.textContent?.trim()
                    && !node.querySelector('svg')
                    && !node.matches('[data-ct-mount]')
                  );
                  if (textChildren.length !== 1) break;
                  label = textChildren[0];
                }}
                const content = labelContainer !== label
                  ? labelContainer
                  : label?.parentElement !== card ? label?.parentElement : null;
                if (content) content.setAttribute('data-ct-slot', 'home.card.content');
                if (icon) {{
                  icon.setAttribute('data-ct-slot', 'home.card.icon');
                  icon.querySelector('svg')?.setAttribute('data-ct-slot', 'home.card.icon.glyph');
                }}
                if (label) label.setAttribute('data-ct-slot', 'home.card.label');
                if (nativeArrow) {{
                  nativeArrow.setAttribute('data-ct-slot', 'home.card.arrow');
                  nativeArrow.querySelector('svg')?.setAttribute('data-ct-slot', 'home.card.arrow.glyph');
                }}
                syncCardArrowAsset(card);
              }});
              if (cards.length) slots.push('home.card');
              if (cards.some(card => card.querySelector(':scope > [data-ct-slot="home.card.background"]'))) {{
                slots.push('home.card.background');
              }}
              if (cards.some(card => card.querySelector('[data-ct-slot="home.card.content"]'))) {{
                slots.push('home.card.content');
              }}
              if (cards.some(card => card.querySelector('[data-ct-slot="home.card.icon"]'))) {{
                slots.push('home.card.icon');
              }}
              if (cards.some(card => card.querySelector('[data-ct-slot="home.card.icon.glyph"]'))) {{
                slots.push('home.card.icon.glyph');
              }}
              if (cards.some(card => card.querySelector('[data-ct-slot="home.card.label"]'))) {{
                slots.push('home.card.label');
              }}
              if (cards.some(card => card.querySelector('[data-ct-slot="home.card.arrow"]'))) {{
                slots.push('home.card.arrow');
              }}
              if (cards.some(card => card.querySelector('[data-ct-slot="home.card.arrow.glyph"]'))) {{
                slots.push('home.card.arrow.glyph');
              }}
              if (cards.some(card => card.querySelector('[data-ct-slot="home.card.arrow.asset"]'))) {{
                slots.push('home.card.arrow.asset');
              }}
            }}

            if (isCompactHome) {{
              main.querySelectorAll(
                '[data-ct-mount="home.hero"], [data-ct-mount^="decoration."]'
              ).forEach(node => node.remove());
              if (!hasWorkspacePanel) {{
                mountConversationBanner(main, editor, slots, homeLayout);
              }}
              return;
            }}

            let hero = main.querySelector('[data-ct-mount="home.hero"]');
            if (!hero) {{
              hero = createMount('home.hero', 'ct-home-hero');
              const viewport = document.createElement('div');
              viewport.dataset.ctSlot = 'home.hero.viewport';
              const copy = document.createElement('div');
              copy.className = 'ct-home-hero__copy';
              copy.dataset.ctSlot = 'home.hero.copy';
              const eyebrow = document.createElement('p');
              eyebrow.className = 'ct-home-hero__eyebrow';
              eyebrow.dataset.ctSlot = 'home.hero.eyebrow';
              eyebrow.textContent = config.hero.eyebrow;
              const title = document.createElement('h1');
              title.className = 'ct-home-hero__title';
              title.dataset.ctSlot = 'home.hero.title';
              title.textContent = config.hero.title;
              const description = document.createElement('p');
              description.className = 'ct-home-hero__description';
              description.dataset.ctSlot = 'home.hero.description';
              description.textContent = config.hero.description;
              copy.append(eyebrow, title, description);
              const media = document.createElement('div');
              media.dataset.ctSlot = 'home.hero.media';
              const image = document.createElement('img');
              image.className = 'ct-home-hero__image';
              image.dataset.ctSlot = 'home.hero.media.asset';
              image.alt = '';
              image.draggable = false;
              image.src = config.hero.assetUrl;
              image.style.objectFit = config.hero.fit;
              image.style.objectPosition = config.hero.position;
              media.appendChild(image);
              const foreground = config.hero.foregroundAssetUrl
                ? createAssetMount('home.hero.foreground', config.hero.foregroundAssetUrl)
                : null;
              if (foreground) {{
                foreground.querySelector('img').dataset.ctSlot = 'home.hero.foreground.asset';
              }}
              const divider = document.createElement('div');
              divider.dataset.ctSlot = 'home.hero.divider';
              divider.setAttribute('aria-hidden', 'true');
              const dividerIcon = document.createElement('span');
              dividerIcon.dataset.ctSlot = 'home.hero.divider.icon';
              if (config.hero.divider?.assetUrl) {{
                const dividerImage = document.createElement('img');
                dividerImage.alt = '';
                dividerImage.draggable = false;
                dividerImage.src = config.hero.divider.assetUrl;
                dividerIcon.appendChild(dividerImage);
              }}
              const dividerLabel = document.createElement('span');
              dividerLabel.dataset.ctSlot = 'home.hero.divider.label';
              dividerLabel.textContent = config.hero.divider?.label ?? '';
              const dividerLine = document.createElement('span');
              dividerLine.dataset.ctSlot = 'home.hero.divider.line';
              divider.append(dividerIcon, dividerLabel, dividerLine);
              viewport.append(copy, media, divider);
              hero.appendChild(viewport);
              if (foreground) hero.appendChild(foreground);
              homeStage.prepend(hero);
            }}
            let heroViewport = hero.querySelector(
              ':scope > [data-ct-slot="home.hero.viewport"]'
            );
            if (!heroViewport) {{
              heroViewport = document.createElement('div');
              heroViewport.dataset.ctSlot = 'home.hero.viewport';
              const viewportSlots = new Set([
                'home.hero.copy',
                'home.hero.media',
                'home.hero.divider'
              ]);
              [...hero.children]
                .filter(node => viewportSlots.has(node.getAttribute('data-ct-slot')))
                .forEach(node => heroViewport.appendChild(node));
              hero.prepend(heroViewport);
            }}
            if (hero.parentElement !== homeStage || hero !== homeStage.firstElementChild) {{
              homeStage.prepend(hero);
            }}
            const heroEyebrow = hero.querySelector('[data-ct-slot="home.hero.eyebrow"]');
            const heroTitle = hero.querySelector('[data-ct-slot="home.hero.title"]');
            const heroDescription = hero.querySelector('[data-ct-slot="home.hero.description"]');
            const heroDividerLabel = hero.querySelector(
              '[data-ct-slot="home.hero.divider.label"]'
            );
            if (heroEyebrow.textContent !== config.hero.eyebrow) {{
              heroEyebrow.textContent = config.hero.eyebrow;
            }}
            if (heroTitle.textContent !== config.hero.title) {{
              heroTitle.textContent = config.hero.title;
            }}
            if (heroDescription.textContent !== config.hero.description) {{
              heroDescription.textContent = config.hero.description;
            }}
            const dividerLabel = config.hero.divider?.label ?? '';
            if (heroDividerLabel.textContent !== dividerLabel) {{
              heroDividerLabel.textContent = dividerLabel;
            }}
            [
              'home.hero',
              'home.hero.viewport',
              'home.hero.copy',
              'home.hero.eyebrow',
              'home.hero.title',
              'home.hero.description',
              'home.hero.media',
              'home.hero.media.asset',
              'home.hero.foreground',
              'home.hero.foreground.asset',
              'home.hero.divider',
              'home.hero.divider.icon',
              'home.hero.divider.label',
              'home.hero.divider.line',
            ].forEach(slot => {{
              if (hero.matches(`[data-ct-slot="${{slot}}"]`) || hero.querySelector(`[data-ct-slot="${{slot}}"]`)) {{
                slots.push(slot);
              }}
            }});

            config.decorations.forEach(decoration => {{
              let mount = main.querySelector(`[data-ct-mount="${{decoration.slot}}"]`);
              if (!mount) {{
                mount = createMount(decoration.slot, 'ct-decoration');
                const image = document.createElement('img');
                image.alt = '';
                image.draggable = false;
                image.src = decoration.assetUrl;
                mount.appendChild(image);
                main.appendChild(mount);
              }}
              slots.push(decoration.slot);
            }});
          }};

"#;

/// Template of the expression that puts a theme on the page: the shell of the application.
pub const APPLY_THEME_SHELL: &'static str = r#"          const collectMatches = (roots, selector) => [...new Set(
            roots.flatMap(root => {{
              if (!(root instanceof Element)) return [];
              return [
                ...(root.matches(selector) ? [root] : []),
                ...root.querySelectorAll(selector)
              ];
            }})
          )];

          const markConversationContent = (conversation, slots, roots = [conversation]) => {{
            if (!conversation) return;
            setSlot(conversation, 'conversation');
            if (!slots.includes('conversation')) slots.push('conversation');
            markSlot(
              collectMatches(roots, '[data-user-message-bubble="true"]'),
              'conversation.user',
              slots
            );
            markSlot(
              collectMatches(
                roots,
                '[data-local-conversation-final-assistant="true"], '
                  + '[data-content-search-unit-key$=":assistant"]'
              ),
              'conversation.assistant',
              slots
            );
            markSlot(collectMatches(roots, '[data-code], pre'), 'code', slots);
            markSlot(
              collectMatches(roots, '[data-markdown-copy="inline-code"]'),
              'code.inline',
              slots
            );
            markSlot(collectMatches(roots, '[data-diff]'), 'diff', slots);
            markSlot(collectMatches(roots, '[data-codex-terminal]'), 'terminal', slots);
            markSlot(
              collectMatches(roots, '[data-codex-xterm]'),
              'terminal.viewport',
              slots
            );
          }};

          let runtimeInstalled = false;
          const apply = () => {{
            const root = document.getElementById('root');
            if (!root || !document.documentElement) return null;
            if (!runtimeInstalled
              && !adapter.probes.every(selector => document.querySelector(selector))) return null;
            syncColorScheme();
            syncLocaleConfig();
            let style = document.getElementById('codex-theme-runtime-style');
            if (!style) {{
              style = document.createElement('style');
              style.id = 'codex-theme-runtime-style';
              document.documentElement.appendChild(style);
            }}
"#;

/// Template of the expression that puts a theme on the page: the style sheet and the name of the
/// theme.
pub const APPLY_THEME_STYLE: &'static str = r#"            const runtimeCss = {css} + '\n' + {platform_css};
            if (style.textContent !== runtimeCss) style.textContent = runtimeCss;
            document.documentElement.setAttribute('data-ct-theme', {theme_id});
"#;

/// Template of the expression that puts a theme on the page: the slots of an earlier look, and the
/// title bar.
pub const APPLY_THEME_SLOTS: &'static str = r#"            root.setAttribute('data-ct-slot', 'app.shell');
            document.querySelectorAll(
              '[data-ct-slot="page"], [data-ct-slot^="page."], '
                + '[data-ct-slot="menu"], [data-ct-slot^="menu."], '
                + '[data-ct-slot="settings"], [data-ct-slot^="settings."]'
            ).forEach(node => node.removeAttribute('data-ct-slot'));
            document.querySelectorAll(
              '[data-ct-slot="composer"], [data-ct-slot^="composer."]'
            ).forEach(node => {{
              if (!node.closest('[data-ct-mount]')) node.removeAttribute('data-ct-slot');
            }});
            document.querySelectorAll('[data-ct-workspace-panel]')
              .forEach(node => node.removeAttribute('data-ct-workspace-panel'));
            document.querySelectorAll('[data-ct-workspace-panel-region]')
              .forEach(node => node.removeAttribute('data-ct-workspace-panel-region'));
            const slots = ['app.shell', `adapter:${{adapter.id}}`];
            if (syncAssetMount(root, 'app.background', 'prepend')) {{
              slots.push('app.background');
            }}
            document.querySelectorAll('[data-ct-native-titlebar]')
              .forEach(node => node.removeAttribute('data-ct-native-titlebar'));
            const nativeTitlebars = [
              ...document.querySelectorAll(adapter.selectors.titlebar)
            ];
            const applicationMenus = adapter.selectors.applicationMenu
              ? [...document.querySelectorAll(adapter.selectors.applicationMenu)]
              : [];
            if (applicationMenus.length) {{
              nativeTitlebars.forEach(node => {{
                node.removeAttribute('data-ct-slot');
                node.setAttribute('data-ct-native-titlebar', '');
              }});
              markSlot(applicationMenus, 'titlebar', slots);
            }} else {{
              markSlot(nativeTitlebars, 'titlebar', slots);
            }}
            if (adapter.selectors.workspacePanel) {{
              document.querySelectorAll(adapter.selectors.workspacePanel).forEach(panel => {{
                panel.setAttribute('data-ct-workspace-panel', '');
                panel.parentElement?.setAttribute('data-ct-workspace-panel-region', '');
              }});
            }}
            if (adapter.selectors.mainContentFrame) {{
              markSlot(
                document.querySelectorAll(adapter.selectors.mainContentFrame),
                'main.content.frame',
                slots
              );
            }}
            const editors = [...document.querySelectorAll(adapter.selectors.composer)];
            const editor = editors.find(isVisible) ?? editors[0] ?? null;
            document.querySelectorAll('[data-ct-composer-layout]').forEach(node => {{
              if (node !== editor) node.removeAttribute('data-ct-composer-layout');
            }});
            const appMainCandidates = [...document.querySelectorAll(adapter.selectors.main)];
            const appMain = appMainCandidates.find(isVisible) ?? appMainCandidates[0] ?? null;
            const sidebarScrollCandidates = [
              ...document.querySelectorAll(adapter.selectors.sidebarScroll)
            ];
            const sidebarScroll = sidebarScrollCandidates.find(isVisible)
              ?? sidebarScrollCandidates[0]
              ?? null;
"#;

/// Template of the expression that puts a theme on the page: the sidebar.
pub const APPLY_THEME_SIDEBAR: &'static str = r#"            if (sidebarScroll) {{
              sidebarScroll.setAttribute('data-ct-slot', 'sidebar.scroll');
              slots.push('sidebar.scroll');
              const sidebar = sidebarScroll.closest('aside');
              if (sidebar) {{
                sidebar.setAttribute('data-ct-slot', 'sidebar');
                slots.push('sidebar');
                sidebar.querySelectorAll(
                  '[data-ct-slot="sidebar.header"], '
                    + '[data-ct-slot="sidebar.header.icon"], '
                    + '[data-ct-slot="sidebar.header.label"], '
                    + '[data-ct-slot="sidebar.brand"], '
                    + '[data-ct-slot="sidebar.item"], '
                    + '[data-ct-slot="sidebar.item.icon"], '
                    + '[data-ct-slot="sidebar.item.label"], '
                    + '[data-ct-slot="sidebar.item.active"], '
                    + '[data-ct-slot="sidebar.item.active.icon"], '
                    + '[data-ct-slot="sidebar.item.active.label"], '
                    + '[data-ct-slot="sidebar.footer"], '
                    + '[data-ct-slot="sidebar.footer.item"], '
                    + '[data-ct-slot="sidebar.footer.icon"], '
                    + '[data-ct-slot="sidebar.footer.label"], '
                    + '[data-ct-slot="sidebar.footer.brand"], '
                    + '[data-ct-slot="sidebar.footer.brand.label"], '
                    + '[data-ct-slot="sidebar.footer.brand.timer"], '
                    + '[data-ct-slot="sidebar.footer.brand.pro"], '
                    + '[data-ct-slot="sidebar.footer.brand.version"]'
                ).forEach(node => {{
                  if (!node.closest('[data-ct-mount]')) node.removeAttribute('data-ct-slot');
                }});
                const sidebarSections = [...sidebar.querySelectorAll(
                  adapter.selectors.sidebarSection
                )];
                markSlot(sidebarSections, 'sidebar.section', slots);
                const projectSections = sidebarSections.filter(section => section.querySelector(
                  '[data-app-action-sidebar-project-list-id], '
                    + '[data-app-action-sidebar-project-row], '
                    + '[data-app-action-sidebar-select-project]'
                ));
                markSlot(projectSections, 'sidebar.section.projects', slots);
                sidebarSections.forEach(section => {{
                  const sectionBody = section.firstElementChild ?? section;
                  const toggle = section.querySelector('[data-app-action-sidebar-section-toggle]');
                  const header = toggle
                    ? [...sectionBody.children].find(node => node.contains(toggle))
                    : null;
                  if (!header) return;
                  header.setAttribute('data-ct-slot', 'sidebar.section.header');
                  toggle.setAttribute('data-ct-slot', 'sidebar.section.toggle');
                  const label = [...toggle.querySelectorAll('span')]
                    .find(node => node.textContent?.trim() && !node.querySelector('svg'));
                  if (label) label.setAttribute('data-ct-slot', 'sidebar.section.label');
                  const toggleGroup = [...header.children].find(node => node.contains(toggle));
                  const actions = [...header.children]
                    .find(node => node !== toggleGroup && node.querySelector('button'));
                  if (actions) {{
                    actions.setAttribute('data-ct-slot', 'sidebar.section.actions');
                    const actionButtons = [...actions.querySelectorAll('button')];
                    markSlot(actionButtons, 'sidebar.section.action', slots);
                    markSlot(
                      actionButtons.flatMap(button => [...button.querySelectorAll('svg')]),
                      'sidebar.section.action.icon',
                      slots
                    );
                  }}
                  if (projectSections.includes(section)
                    && label
                    && config.sidebarSectionDecoration?.assetUrl) {{
                    let decoration = toggle.querySelector(
                      ':scope > [data-ct-mount="sidebar.section.decoration"]'
                    );
                    if (!decoration) {{
                      decoration = createAssetMount(
                        'sidebar.section.decoration',
                        config.sidebarSectionDecoration.assetUrl
                      );
                      toggle.appendChild(decoration);
                    }}
                    slots.push('sidebar.section.decoration');
                  }}
                }});
                if (sidebarSections.length) {{
                  slots.push('sidebar.section.header', 'sidebar.section.toggle');
                }}
                if (sidebarSections.some(section => section.querySelector('[data-ct-slot="sidebar.section.label"]'))) {{
                  slots.push('sidebar.section.label');
                }}
                if (sidebarSections.some(section => section.querySelector('[data-ct-slot="sidebar.section.actions"]'))) {{
                  slots.push('sidebar.section.actions');
                }}
                const itemCandidates = [...new Set([
                  ...sidebar.querySelectorAll(
                    'button, a, [role="button"], '
                      + '[data-app-action-sidebar-project-row], '
                      + '[data-app-action-sidebar-thread-row], '
                      + '[data-app-action-sidebar-select-project]'
                  )
                ])].filter(item =>
                  !item.closest('[data-ct-slot="sidebar.section.header"]')
                  && !item.matches('[data-ct-slot="sidebar.section.action"]')
                );
                markSlot(itemCandidates, 'sidebar.item', slots);
                markSlot(
                  itemCandidates.flatMap(item => [...item.querySelectorAll('svg')]),
                  'sidebar.item.icon',
                  slots
                );
                markSlot(
                  itemCandidates.flatMap(item => [...item.querySelectorAll('span')])
                    .filter(label => label.textContent?.trim() && !label.querySelector('svg')),
                  'sidebar.item.label',
                  slots
                );
                const outsideScrollItems = itemCandidates.filter(item => !sidebarScroll.contains(item));
                const boundaryRegion = item => {{
                  let region = item;
                  while (region.parentElement
                    && region.parentElement !== sidebar
                    && region.parentElement !== sidebarScroll) {{
                    region = region.parentElement;
                  }}
                  return region;
                }};
                const footerItem = outsideScrollItems
                  .reduce((current, item) => !current
                    || item.getBoundingClientRect().bottom > current.getBoundingClientRect().bottom
                    ? item : current, null);
                const findBottomRegion = item => {{
                  const sidebarRect = sidebar.getBoundingClientRect();
                  let region = item;
                  while (region && region !== sidebar && region !== sidebarScroll) {{
                    const rect = region.getBoundingClientRect();
                    const style = getComputedStyle(region);
                    if (style.position === 'absolute'
                      && Math.abs(rect.bottom - sidebarRect.bottom) <= 4
                      && rect.width >= sidebarRect.width * 0.8) {{
                      return region;
                    }}
                    region = region.parentElement;
                  }}
                  return null;
                }};
                const footer = footerItem ? findBottomRegion(footerItem) : null;
                const headerItem = outsideScrollItems
                  .filter(item => !footer?.contains(item))
                  .reduce((current, item) => !current
                    || item.getBoundingClientRect().top < current.getBoundingClientRect().top
                    ? item : current, null);
                const findHeaderRegion = item => {{
                  const sidebarRect = sidebar.getBoundingClientRect();
                  let region = item;
                  let matched = null;
                  while (region && region !== sidebar && region !== sidebarScroll) {{
                    const rect = region.getBoundingClientRect();
                    if (rect.width >= sidebarRect.width * 0.8 && rect.height <= 100) matched = region;
                    if (rect.height > 100) break;
                    region = region.parentElement;
                  }}
                  return matched ?? item;
                }};
                if (headerItem) {{
                  const header = findHeaderRegion(headerItem);
                  markSlot([header], 'sidebar.header', slots);
                  markSlot(headerItem.querySelectorAll('svg'), 'sidebar.header.icon', slots);
                  markSlot(
                    [...headerItem.querySelectorAll('span')]
                      .filter(label => label.textContent?.trim() && !label.querySelector('svg')),
                    'sidebar.header.label',
                    slots
                  );
                  headerItem.setAttribute('data-ct-slot', 'sidebar.brand');
                  slots.push('sidebar.brand');
                  for (const slot of ['sidebar.brand.icon', 'sidebar.brand.badge']) {{
                    if (syncAssetMount(headerItem, slot)) slots.push(slot);
                  }}
                  if (syncAssetMount(header, 'sidebar.header.background', 'prepend')) {{
                    slots.push('sidebar.header.background');
                  }}
                  if (syncAssetMount(header, 'sidebar.header.decoration', 'prepend')) {{
                    slots.push('sidebar.header.decoration');
                  }}
                }}
                if (footer && footerItem !== headerItem) {{
                  markSlot([footer], 'sidebar.footer', slots);
                  const footerItems = itemCandidates.filter(item => footer.contains(item));
                  markSlot(footerItems, 'sidebar.footer.item', slots);
                  markSlot(
                    footerItems.flatMap(item => [...item.querySelectorAll('svg')]),
                    'sidebar.footer.icon',
                    slots
                  );
                  markSlot(
                    footerItems.flatMap(item => [...item.querySelectorAll('span')])
                      .filter(label => label.textContent?.trim() && !label.querySelector('svg')),
                    'sidebar.footer.label',
                    slots
                  );
                  let brand = sidebar.querySelector('[data-ct-mount="sidebar.footer.brand"]');
                  if (brand && brand.parentElement !== footer) {{
                    brand.remove();
                    brand = null;
                  }}
                  if (!brand) {{
                    brand = createMount('sidebar.footer.brand', 'ct-sidebar-footer-brand');
                    brand.setAttribute('aria-hidden', 'true');
                    footer.prepend(brand);
                  }}
                  let label = brand.querySelector('[data-ct-slot="sidebar.footer.brand.label"]');
                  if (!label) {{
                    label = document.createElement('span');
                    label.dataset.ctSlot = 'sidebar.footer.brand.label';
                    label.textContent = 'ReTheme';
                    brand.prepend(label);
                  }}
                  let pro = brand.querySelector('[data-ct-slot="sidebar.footer.brand.pro"]');
                  let timer = brand.querySelector('[data-ct-slot="sidebar.footer.brand.timer"]');
                  let version = brand.querySelector('[data-ct-slot="sidebar.footer.brand.version"]');
                  if (hasPro) {{
                    timer?.remove();
                    version?.remove();
                    if (!pro) {{
                      pro = document.createElement('span');
                      pro.dataset.ctSlot = 'sidebar.footer.brand.pro';
                      pro.textContent = 'PRO';
                      brand.appendChild(pro);
                    }}
                  }} else if (hardExpiresAt) {{
                    pro?.remove();
                    version?.remove();
                    if (!timer) {{
                      timer = document.createElement('span');
                      timer.dataset.ctSlot = 'sidebar.footer.brand.timer';
                      brand.appendChild(timer);
                    }}
                    syncThemeStatus();
                  }} else {{
                    timer?.remove();
                    pro?.remove();
                    if (!version) {{
                      version = document.createElement('span');
                      version.dataset.ctSlot = 'sidebar.footer.brand.version';
                      brand.appendChild(version);
                    }}
                    version.textContent = `v${{themeVersion}}`;
                  }}
                  slots.push('sidebar.footer.brand', 'sidebar.footer.brand.label');
                  if (hasPro) slots.push('sidebar.footer.brand.pro');
                  else if (hardExpiresAt) slots.push('sidebar.footer.brand.timer');
                  else slots.push('sidebar.footer.brand.version');
                  let heightOwner = footer.parentElement;
                  while (heightOwner && heightOwner !== sidebar.parentElement) {{
                    const currentHeight = heightOwner.style.getPropertyValue(
                      '--sidebar-footer-height'
                    );
                    if (currentHeight) {{
                      if (!heightOwner.hasAttribute('data-ct-sidebar-footer-height')) {{
                        heightOwner.setAttribute('data-ct-sidebar-footer-height', currentHeight);
                      }}
                      heightOwner.style.setProperty('--sidebar-footer-height', '78px');
                      break;
                    }}
                    heightOwner = heightOwner.parentElement;
                  }}
                }}
                const activeItems = [...sidebar.querySelectorAll(
                  '[aria-current="page"], [data-app-action-sidebar-thread-active="true"]'
                )];
                activeItems.forEach(item => {{
                  item.setAttribute('data-ct-slot', 'sidebar.item.active');
                  const icon = item.querySelector('svg');
                  if (icon) icon.setAttribute('data-ct-slot', 'sidebar.item.active.icon');
                  [...item.querySelectorAll('span')]
                    .filter(label => label.textContent?.trim() && !label.querySelector('svg'))
                    .forEach(label => label.setAttribute('data-ct-slot', 'sidebar.item.active.label'));
                }});
                if (activeItems.length) slots.push('sidebar.item.active');
                if (activeItems.some(item => item.querySelector('[data-ct-slot="sidebar.item.active.icon"]'))) {{
                  slots.push('sidebar.item.active.icon');
                }}
                if (activeItems.some(item => item.querySelector('[data-ct-slot="sidebar.item.active.label"]'))) {{
                  slots.push('sidebar.item.active.label');
                }}
                const sidebarResize = [...sidebar.children].find(node =>
                  node.matches('[role="separator"][aria-orientation="vertical"]')
                );
                if (sidebarResize) {{
                  sidebarResize.setAttribute('data-ct-slot', 'sidebar.resize');
                  slots.push('sidebar.resize');
                  const resizeIndicator = [...sidebarResize.children].find(node =>
                    getComputedStyle(node).pointerEvents === 'none'
                  );
                  if (resizeIndicator) {{
                    resizeIndicator.setAttribute('data-ct-slot', 'sidebar.resize.indicator');
                    slots.push('sidebar.resize.indicator');
                  }}
                }}
                if (syncAssetMount(sidebar, 'sidebar.frame')) slots.push('sidebar.frame');
              }}
            }}
"#;

/// Template of the expression that puts a theme on the page: the main area and the composer.
pub const APPLY_THEME_COMPOSER: &'static str = r#"            if (appMain) {{
              appMain.setAttribute('data-ct-slot', 'main');
              slots.push('main');
              if (adapter.selectors.mainTopFade) {{
                markSlot(
                  document.querySelectorAll(adapter.selectors.mainTopFade),
                  'main.fade',
                  slots
                );
              }}
              for (const slot of ['main.background', 'main.overlay', 'main.frame']) {{
                if (syncAssetMount(appMain, slot, slot === 'main.background' ? 'prepend' : 'append')) {{
                  slots.push(slot);
                }}
              }}
              syncTitlebarSafeTop(appMain);
              const visibleConversation = [...document.querySelectorAll(
                adapter.selectors.conversation
              )].find(isVisible);
              const pageAnchor = visibleConversation
                ?? (isVisible(editor) ? editor : appMain.firstElementChild);
              mountHero(appMain, editor, slots);
              if (!['home', 'home-compact', 'conversation'].includes(
                document.documentElement.getAttribute('data-ct-view')
              )) {{
                markPage(appMain, pageAnchor, slots);
              }}
            }}
            if (editor) {{
              const composerRoot = editor.closest(adapter.selectors.composerRoot);
              const editorSurface = editor;
              const composer = composerRoot
                ? [...composerRoot.querySelectorAll('*')].find(node => {{
                    const style = getComputedStyle(node);
                    return node.contains(editor)
                      && node.querySelector('button')
                      && (style.backgroundColor !== 'rgba(0, 0, 0, 0)'
                        || style.backdropFilter !== 'none');
                  }})
                : editor.closest('form');
              if (composer) {{
                composer.setAttribute('data-ct-slot', 'composer');
                slots.push('composer');
              }}
              let composerSticky = composer?.parentElement ?? null;
              while (
                composerSticky
                && composerSticky !== appMain
                && getComputedStyle(composerSticky).position !== 'sticky'
              ) {{
                composerSticky = composerSticky.parentElement;
              }}
              const backdrop = document.documentElement.dataset.ctView === 'conversation'
                && composerSticky
                && getComputedStyle(composerSticky).position === 'sticky'
                ? [...composerSticky.children].find(node => {{
                    if (node.contains(composer)) return false;
                    const style = getComputedStyle(node);
                    return style.position === 'absolute'
                      && style.pointerEvents === 'none'
                      && [node, ...node.querySelectorAll('*')].some(child =>
                        getComputedStyle(child).backgroundImage.includes('gradient')
                      );
                  }})
                : null;
              if (backdrop) {{
                backdrop.setAttribute('data-ct-slot', 'composer.backdrop');
                slots.push('composer.backdrop');
              }}
              if (editorSurface) {{
                editorSurface.setAttribute('data-ct-slot', 'composer.editor');
                syncComposerLayout(editorSurface);
                observeComposerLayout(editorSurface);
                slots.push('composer.editor');
              }}
              composerRoot?.querySelectorAll(
                '[data-ct-slot="composer.context"], '
                  + '[data-ct-slot="composer.context.item"], '
                  + '[data-ct-slot="composer.context.item.icon"], '
                  + '[data-ct-slot="composer.context.item.label"]'
              ).forEach(node => node.removeAttribute('data-ct-slot'));
              const utilityBar = adapter.selectors.composerUtilityBar
                ? composerRoot?.querySelector(adapter.selectors.composerUtilityBar)
                : null;
              const utilityBarSurface = utilityBar?.parentElement ?? null;
              let contextSlot = null;
              if (utilityBarSurface) {{
                contextSlot = utilityBarSurface;
              }} else {{
                const clearProjectButton = composerRoot?.querySelector(
                  '[data-clear-project-button]'
                );
                if (clearProjectButton) {{
                let context = clearProjectButton.parentElement;
                while (context && context !== composerRoot) {{
                  const siblings = [...(context.parentElement?.children ?? [])];
                  if (siblings.some(sibling => sibling !== context && sibling.contains(editor))) {{
                    let contextSurface = clearProjectButton.parentElement;
                    while (contextSurface && contextSurface !== context) {{
                      const style = getComputedStyle(contextSurface);
                      if (style.backgroundColor !== 'rgba(0, 0, 0, 0)'
                        && parseFloat(style.borderTopLeftRadius) > 0) break;
                      contextSurface = contextSurface.parentElement;
                    }}
                    contextSlot = contextSurface && contextSurface !== context
                      ? contextSurface
                      : context;
                    break;
                  }}
                  context = context.parentElement;
                }}
                }}
              }}
              if (contextSlot) {{
                markSlot([contextSlot], 'composer.context', slots);
                const contextItems = [...contextSlot.querySelectorAll(
                  'button, [role="button"]'
                )];
                markSlot(contextItems, 'composer.context.item', slots);
                markSlot(
                  contextItems.flatMap(item => [...item.querySelectorAll('svg')]),
                  'composer.context.item.icon',
                  slots
                );
                markSlot(
                  contextItems.flatMap(item => [...item.querySelectorAll('span')])
                    .filter(label => label.textContent?.trim() && !label.querySelector('svg')),
                  'composer.context.item.label',
                  slots
                );
              }}
              const composerButtons = [...(composerRoot?.querySelectorAll('button') ?? [])]
                .filter(button => !contextSlot?.contains(button));
              markSlot(composerButtons, 'composer.action', slots);
              markSlot(
                composerButtons.flatMap(button => [...button.querySelectorAll('svg')]),
                'composer.action.icon',
                slots
              );
              markSlot(
                composerButtons.flatMap(button => [...button.querySelectorAll('span')])
                  .filter(label => label.textContent?.trim() && !label.querySelector('svg')),
                'composer.action.label',
                slots
              );
              const permissionButton = composerRoot?.querySelector(
                '[data-composer-navigation-target="permissions"]'
              );
              if (permissionButton) {{
                markSlot([permissionButton], 'composer.permission', slots);
                markSlot(
                  permissionButton.querySelectorAll('svg'),
                  'composer.permission.icon',
                  slots
                );
                markSlot(
                  [...permissionButton.querySelectorAll('span')]
                    .filter(label => label.textContent?.trim() && !label.querySelector('svg')),
                  'composer.permission.label',
                  slots
                );
              }}
              const submitButton = composerRoot?.querySelector('button[type="submit"]')
                ?? composerButtons.reverse().find(button =>
                  button.querySelector('svg')
                  && !button.hasAttribute('data-composer-navigation-target')
                  && !button.hasAttribute('data-clear-project-button')
                  && Boolean(editor.compareDocumentPosition(button) & Node.DOCUMENT_POSITION_FOLLOWING)
                );
              if (submitButton) {{
                markSlot([submitButton], 'composer.submit', slots);
                markSlot(submitButton.querySelectorAll('svg'), 'composer.submit.icon', slots);
                if (config.composerSubmit?.assetUrl) {{
                  let decoration = submitButton.querySelector(
                    ':scope > [data-ct-mount="composer.submit.decoration"]'
                  );
                  if (!decoration) {{
                    decoration = createAssetMount(
                      'composer.submit.decoration',
                      config.composerSubmit.assetUrl
                    );
                    submitButton.appendChild(decoration);
                  }}
                  slots.push('composer.submit.decoration');
                }}
              }}
              if (composer && config.composerDecoration?.assetUrl) {{
                let decoration = composer.querySelector(
                  ':scope > [data-ct-mount="composer.decoration"]'
                );
                if (!decoration) {{
                  decoration = createAssetMount(
                    'composer.decoration',
                    config.composerDecoration.assetUrl
                  );
                  composer.appendChild(decoration);
                }}
                slots.push('composer.decoration');
              }}
              const panelTrigger = composerRoot?.querySelector(
                '[aria-expanded="true"][aria-controls]'
              );
              const composerPanel = panelTrigger
                ? document.getElementById(panelTrigger.getAttribute('aria-controls'))
                : null;
              if (composerPanel) {{
                markSlot([composerPanel], 'composer.panel', slots);
                const panelItems = composerPanel.querySelectorAll('button, [role="button"], [role="option"]');
                markSlot(panelItems, 'composer.panel.item', slots);
                markSlot(
                  [...panelItems].flatMap(item => [...item.querySelectorAll('svg')]),
                  'composer.panel.icon',
                  slots
                );
                markSlot(
                  composerPanel.querySelectorAll('hr, [role="separator"]'),
                  'composer.panel.separator',
                  slots
                );
              }}
            }}

"#;

/// Template of the expression that puts a theme on the page: the checks of the finished layout.
pub const APPLY_THEME_HEALTH: &'static str = r#"            const conversation = [...document.querySelectorAll(
              adapter.selectors.conversation
            )].find(isVisible);
            if (conversation) {{
              document.querySelectorAll('[data-ct-slot="conversation"]')
                .forEach(node => {{
                  if (node !== conversation) node.removeAttribute('data-ct-slot');
                }});
              markConversationContent(conversation, slots);
            }}

            const settingsItems = [...document.querySelectorAll(adapter.selectors.settingsItem)];
            markSettings(settingsItems, appMain, slots);
            markMenus(slots);
            const hero = document.querySelector('[data-ct-mount="home.hero"]');
            const main = document.querySelector('[data-ct-slot="main"]');
            const titlebar = [...document.querySelectorAll('[data-ct-slot="titlebar"]')]
              .filter(isVisible)
              .reduce((visible, candidate) => !visible
                || candidate.getBoundingClientRect().bottom > visible.getBoundingClientRect().bottom
                ? candidate : visible, null);
            const composer = document.querySelector('[data-ct-slot="composer"]');
            const composerEditor = document.querySelector('[data-ct-slot="composer.editor"]');
            const homeBrand = document.querySelector('[data-ct-slot="home.brand"]');
            const homeStage = document.querySelector('[data-ct-slot="home.stage"]');
            const homeSource = document.querySelector(adapter.selectors.homeSource);
            const homeCards = [...document.querySelectorAll('[data-ct-slot="home.card"]')];
            const homeCardsGrid = document.querySelector('[data-ct-slot="home.cards.grid"]');
            const submitDecoration = document.querySelector(
              '[data-ct-mount="composer.submit.decoration"]'
            );
            const composerDecoration = document.querySelector(
              '[data-ct-mount="composer.decoration"]'
            );
            const sidebarDecoration = document.querySelector(
              '[data-ct-mount="sidebar.section.decoration"]'
            );
            const currentView = document.documentElement.getAttribute('data-ct-view') ?? 'other';
            slots.push(`view:${{currentView}}`);
            if (currentView !== 'home') {{
              return [...new Set(slots)];
            }}
            if (!hero || !main || !titlebar || !composer || !composerEditor || !homeStage || !homeSource || !homeCards.length) return null;
            const heroRect = hero.getBoundingClientRect();
            const mainRect = main.getBoundingClientRect();
            const titlebarRect = titlebar.getBoundingClientRect();
            const composerRect = composer.getBoundingClientRect();
            const editorRect = composerEditor.getBoundingClientRect();
            const composerStyle = getComputedStyle(composer);
            const editorStyle = getComputedStyle(composerEditor);
            const heroVisible = heroRect.width >= 320
              && heroRect.height >= 200
              && heroRect.left >= mainRect.left
              && heroRect.right <= mainRect.right
              && heroRect.top >= titlebarRect.bottom;
            const composerStyled = parseFloat(composerStyle.borderTopLeftRadius) > 0
              && composerStyle.backgroundColor !== 'rgba(0, 0, 0, 0)';
            const editorRadius = parseFloat(editorStyle.borderTopLeftRadius) > 0;
            const editorFilled = editorStyle.backgroundColor !== 'rgba(0, 0, 0, 0)';
            const editorTallEnough = editorRect.height >= 64;
            const editorPadded = parseFloat(editorStyle.paddingLeft) >= 12
              && parseFloat(editorStyle.paddingRight) >= 12
              && parseFloat(editorStyle.paddingTop) >= 12
              && parseFloat(editorStyle.paddingBottom) >= 12;
            const editorInsetLeft = editorRect.left > composerRect.left;
            const editorInsetRight = editorRect.right < composerRect.right;
            const editorInsetTop = editorRect.top > composerRect.top;
            const brandHidden = !homeBrand || getComputedStyle(homeBrand).display === 'none';
            const homeFitsViewport = homeStage.scrollWidth <= homeStage.clientWidth + 2;
            const cardWidths = homeCards.map(card => card.getBoundingClientRect().width);
            const cardsEvenlyDistributed = Math.max(...cardWidths) - Math.min(...cardWidths) <= 2;
            const cardsGridRect = homeCardsGrid?.getBoundingClientRect();
            const cardRowBounds = homeCards.reduce((bounds, card) => {{
              const rect = card.getBoundingClientRect();
              if (Math.abs(rect.top - bounds.top) > 2) return bounds;
              return {{ top: bounds.top, left: Math.min(bounds.left, rect.left), right: Math.max(bounds.right, rect.right) }};
            }}, {{
              top: homeCards[0].getBoundingClientRect().top,
              left: Number.POSITIVE_INFINITY,
              right: Number.NEGATIVE_INFINITY
            }});
            const cardsFillRow = cardsGridRect
              && Math.abs(cardRowBounds.left - cardsGridRect.left) <= 2
              && Math.abs(cardRowBounds.right - cardsGridRect.right) <= 2;
            const visualVisible = node => {{
              if (!node) return false;
              const rect = node.getBoundingClientRect();
              const style = getComputedStyle(node);
              return rect.width >= 16
                && rect.height >= 16
                && style.display !== 'none'
                && style.visibility !== 'hidden'
                && parseFloat(style.opacity) > 0;
            }};
            const composerDecorationOffset = !composerDecoration
              || composerDecoration.getBoundingClientRect().bottom > composerRect.bottom;
            const cardsClearBanner = Math.min(
              ...homeCards.map(card => card.getBoundingClientRect().top)
            ) >= heroRect.bottom - 2;
            const cardsClearComposer = Math.max(
              ...homeCards.map(card => card.getBoundingClientRect().bottom)
            ) <= composerRect.top - 16;
            const embeddedCardsInteractive = homeCards.every(card => {{
              const rect = card.getBoundingClientRect();
              if (rect.width < 120
                || rect.height < 80
                || rect.left < heroRect.left - 2
                || rect.right > heroRect.right + 2
                || rect.top < heroRect.top - 2
                || rect.bottom > heroRect.bottom + 2) return false;
              const target = document.elementFromPoint(
                rect.left + rect.width / 2,
                rect.top + rect.height / 2
              );
              return target?.closest('[data-ct-slot="home.card"]') === card;
            }});
            if (!heroVisible) slots.push('health.hero.invisible');
            if (!cardsClearBanner && !embeddedCardsInteractive) {{
              const firstCardRect = homeCards[0].getBoundingClientRect();
              const lastCardRect = homeCards.at(-1).getBoundingClientRect();
              slots.push(`health.hero.layout:${{[
                heroRect.left,
                heroRect.top,
                heroRect.right,
                heroRect.bottom,
                firstCardRect.left,
                firstCardRect.top,
                lastCardRect.right,
                lastCardRect.bottom
              ].map(value => Math.round(value)).join('/') }}`);
            }}
            if (!brandHidden) slots.push('health.home-brand.visible');
            if (!homeFitsViewport) slots.push('health.home.horizontal-overflow');
            if (!cardsEvenlyDistributed || !cardsFillRow) slots.push('health.home-cards.distribution');
            if (!cardsClearComposer) slots.push('health.home-cards.composer-overlap');
            if (config.composerSubmit && !visualVisible(submitDecoration)) slots.push('health.composer-submit.decoration');
            if (config.composerDecoration && (!visualVisible(composerDecoration) || !composerDecorationOffset)) slots.push('health.composer.decoration');
            if (config.sidebarSectionDecoration && !visualVisible(sidebarDecoration)) slots.push('health.sidebar-section.decoration');
            if (!composerStyled) slots.push('health.composer.unstyled');
            if (!editorRadius) slots.push('health.composer-editor.radius');
            if (!editorFilled) slots.push('health.composer-editor.fill');
            if (!editorTallEnough) slots.push('health.composer-editor.height');
            if (!editorPadded) slots.push('health.composer-editor.padding');
            if (!editorInsetLeft) slots.push('health.composer-editor.left');
            if (!editorInsetRight) slots.push('health.composer-editor.right');
            if (!editorInsetTop) slots.push('health.composer-editor.top');
            return [...new Set(slots)];
          }};

"#;

/// Template of the expression that puts a theme on the page: the observers that
/// keep the theme in place.
pub const APPLY_THEME_RUNTIME: &'static str = r#"          const slots = apply();
          if (!slots) return null;
          const observeOptions = {{
            childList: true,
            subtree: true,
            attributes: true,
            attributeFilter: [
              'aria-current',
              'aria-checked',
              'aria-expanded',
              'data-content-search-unit-key',
              'data-highlighted',
              'data-local-conversation-final-assistant',
              'data-state',
              'data-app-action-sidebar-thread-active',
              'data-user-message-bubble'
            ]
          }};
          const runtime = {{
            sessionId,
            slots,
            revokeAssets,
            hardExpiresAt,
            leaseExpiresAt: 0,
            leaseTimer: 0,
            syncThemeStatus,
            syncLocale: null,
            restoreTheme,
            observer: null,
            schemeObserver: null,
            composerLayoutObserver,
            colorSchemeMedia,
            syncColorScheme,
            frame: 0,
            homeFrame: 0,
            contentFrame: 0,
            metricsFrame: 0,
            resizeFrame: 0,
            apply,
            root: document.getElementById('root'),
            eventTarget: document,
            pendingConversationRoots: new Set(),
            lastApplyError: null,
            handleInput: null,
            handleNavigation: null,
            handleResize: null
          }};
          const scheduleApply = () => {{
            if (runtime.frame) return;
            runtime.frame = requestAnimationFrame(() => {{
              runtime.frame = 0;
              if (runtime.homeFrame) cancelAnimationFrame(runtime.homeFrame);
              if (runtime.contentFrame) cancelAnimationFrame(runtime.contentFrame);
              if (runtime.metricsFrame) cancelAnimationFrame(runtime.metricsFrame);
              runtime.homeFrame = 0;
              runtime.contentFrame = 0;
              runtime.metricsFrame = 0;
              runtime.pendingConversationRoots.clear();
              runtime.observer.disconnect();
              try {{
                runtime.root = document.getElementById('root');
                runtime.slots = apply() ?? runtime.slots;
                runtime.lastApplyError = null;
              }} catch (error) {{
                runtime.lastApplyError = {{
                  message: String(error),
                  stack: error?.stack ?? null
                }};
              }} finally {{
                if (window[runtimeKey] === runtime && document.documentElement) {{
                  runtime.observer.observe(document.documentElement, observeOptions);
                }}
              }}
            }});
          }};
          const scheduleHomeRefresh = () => {{
            if (runtime.frame || runtime.homeFrame) return;
            runtime.homeFrame = requestAnimationFrame(() => {{
              runtime.homeFrame = 0;
              const view = document.documentElement.dataset.ctView;
              if (view !== 'home' && view !== 'home-compact') return;
              const appMain = [...document.querySelectorAll(adapter.selectors.main)]
                .find(isVisible);
              const editors = [...document.querySelectorAll(adapter.selectors.composer)];
              const editor = editors.find(isVisible) ?? editors[0] ?? null;
              if (!appMain || !editor) return;
              runtime.observer.disconnect();
              try {{
                const homeSlots = [];
                mountHero(appMain, editor, homeSlots);
                syncComposerLayout(editor);
                syncTitlebarSafeTop(appMain);
                runtime.slots = [...new Set([...runtime.slots, ...homeSlots])];
                runtime.lastApplyError = null;
              }} catch (error) {{
                runtime.lastApplyError = {{
                  message: String(error),
                  stack: error?.stack ?? null
                }};
              }} finally {{
                if (window[runtimeKey] === runtime && document.documentElement) {{
                  runtime.observer.observe(document.documentElement, observeOptions);
                }}
              }}
            }});
          }};
          runtime.syncLocale = locale => {{
            requestedLocale = locale;
            syncLocaleConfig();
            runtime.slots = apply() ?? runtime.slots;
            return true;
          }};
          const scheduleConversationContent = roots => {{
            roots.forEach(root => {{
              if (root instanceof Element) runtime.pendingConversationRoots.add(root);
            }});
            if (runtime.contentFrame) return;
            runtime.contentFrame = requestAnimationFrame(() => {{
              runtime.contentFrame = 0;
              const conversation = [...document.querySelectorAll(
                adapter.selectors.conversation
              )].find(isVisible);
              const contentRoots = [...runtime.pendingConversationRoots]
                .filter(root => root.isConnected && conversation?.contains(root));
              runtime.pendingConversationRoots.clear();
              if (!conversation || !contentRoots.length) return;
              const contentSlots = [];
              markConversationContent(conversation, contentSlots, contentRoots);
              runtime.slots = [...new Set([...runtime.slots, ...contentSlots])];
            }});
          }};
          const scheduleMetrics = () => {{
            if (runtime.metricsFrame) return;
            runtime.metricsFrame = requestAnimationFrame(() => {{
              runtime.metricsFrame = 0;
              const appMain = [...document.querySelectorAll(adapter.selectors.main)]
                .find(isVisible);
              syncComposerLayout(
                document.querySelector('[data-ct-slot="composer.editor"]')
              );
              syncTitlebarSafeTop(appMain);
              syncConversationHeaderLayout();
              syncConversationBannerForeground();
              const stage = document.querySelector('[data-ct-slot="conversation.stage"]');
              if (!stage) return;
              const metricSlots = [];
              markConversationSummary(stage, metricSlots);
              runtime.slots = [
                ...new Set([
                  ...runtime.slots.filter(slot =>
                    !['conversation.summary.region', 'conversation.summary'].includes(slot)
                  ),
                  ...metricSlots
                ])
              ];
            }});
          }};
          const structuralSelectors = [
            adapter.selectors.main,
            adapter.selectors.composerRoot,
            adapter.selectors.conversation,
            adapter.selectors.conversationSummaryRegion,
            adapter.selectors.homeSource,
            adapter.selectors.settingsItem,
            adapter.selectors.sidebarScroll,
            adapter.selectors.workspacePanel,
            '[role="menu"]'
          ].filter(Boolean);
          const touchesStructure = node => node instanceof Element
            && structuralSelectors.some(selector =>
              node.matches(selector) || Boolean(node.querySelector(selector))
            );
          runtime.observer = new MutationObserver(mutations => {{
            let needsApply = false;
            let needsHomeRefresh = false;
            const conversationRoots = [];
            const settingsOpen = Boolean(
              document.querySelector(adapter.selectors.settingsItem)
            );
            for (const mutation of mutations) {{
              const target = mutation.target instanceof Element ? mutation.target : null;
              const conversation = target?.closest(adapter.selectors.conversation);
              if (mutation.type === 'attributes') {{
                if (conversation) {{
                  conversationRoots.push(target);
                  continue;
                }}
                const view = document.documentElement.dataset.ctView;
                if ((view === 'home' || view === 'home-compact')
                  && target?.closest(adapter.selectors.composerRoot)) {{
                  needsHomeRefresh = true;
                  continue;
                }}
                if (target?.closest([
                  'aside',
                  adapter.selectors.composerRoot,
                  adapter.selectors.settingsItem,
                  adapter.selectors.workspacePanel,
                  '[role="menu"]'
                ].filter(Boolean).join(', '))) {{
                  needsApply = true;
                }}
                continue;
              }}
              const changedNodes = [
                ...mutation.addedNodes,
                ...mutation.removedNodes
              ];
              if (changedNodes.some(touchesStructure)
                || target === runtime.root
                || target === document.body
                || target === document.documentElement) {{
                needsApply = true;
                continue;
              }}
              if (conversation) {{
                conversationRoots.push(
                  ...mutation.addedNodes,
                  ...(target instanceof Element ? [target] : [])
                );
                continue;
              }}
              if (settingsOpen && target?.closest(adapter.selectors.main)) {{
                needsApply = true;
                continue;
              }}
              const view = document.documentElement.dataset.ctView;
              if ((view === 'home' || view === 'home-compact')
                && target?.closest(adapter.selectors.main)) {{
                needsHomeRefresh = true;
                continue;
              }}
              if (target?.closest([
                'aside',
                adapter.selectors.composerRoot,
                adapter.selectors.settingsItem,
                adapter.selectors.workspacePanel,
                '[role="menu"]'
              ].filter(Boolean).join(', '))) {{
                needsApply = true;
              }}
            }}
            if (conversationRoots.length) scheduleConversationContent(conversationRoots);
            if (needsApply) scheduleApply();
            else if (needsHomeRefresh) scheduleHomeRefresh();
          }});
          runtime.handleInput = event => {{
            const composerRoot = document.querySelector(adapter.selectors.composerRoot);
            const view = document.documentElement.dataset.ctView;
            if ((view === 'home' || view === 'home-compact')
              && event.target instanceof Node
              && composerRoot?.contains(event.target)) {{
              scheduleHomeRefresh();
            }}
          }};
          runtime.handleNavigation = event => {{
            if (!(event.target instanceof Element)) return;
            if (event.target.closest(
              '[data-app-action-sidebar-thread-row], '
                + '[data-app-action-sidebar-select-thread], '
                + '[data-settings-panel-slug]'
            )) {{
              requestAnimationFrame(() => requestAnimationFrame(scheduleApply));
            }}
          }};
          runtime.handleResize = () => {{
            scheduleMetrics();
            if (runtime.resizeFrame) cancelAnimationFrame(runtime.resizeFrame);
            runtime.resizeFrame = requestAnimationFrame(() => {{
              runtime.resizeFrame = 0;
              scheduleMetrics();
            }});
          }};
          runtime.observer.observe(document.documentElement, observeOptions);
          runtime.eventTarget.addEventListener('input', runtime.handleInput, true);
          runtime.eventTarget.addEventListener('click', runtime.handleNavigation, true);
          window.addEventListener('resize', runtime.handleResize);
          runtime.schemeObserver = new MutationObserver(mutations => {{
            syncColorScheme();
          }});
          runtime.schemeObserver.observe(document.documentElement, {{
            attributes: true,
            attributeFilter: ['class']
          }});
          colorSchemeMedia.addEventListener('change', syncColorScheme);
          runtimeInstalled = true;
          window[runtimeKey] = runtime;
          installPageLease(runtimeKey, runtime, pageLeaseMilliseconds);
          scheduleApply();
          return slots;
        }})()"#;

/// Expression that switches the language of the theme on the page: up to the number of the session.
pub const SYNC_LOCALE_SESSION: &'static str = r#"(() => {
          const runtime = window.__codexThemeRuntime;
          if (!runtime || runtime.sessionId !== "#;

/// Expression that switches the language of the theme on the page: from the number of the session
/// to the language.
pub const SYNC_LOCALE_LANGUAGE: &'static str = r#" || !runtime.syncLocale) return false;
          return runtime.syncLocale("#;

/// Expression that switches the language of the theme on the page: behind the language.
pub const SYNC_LOCALE_END: &'static str = r#");
        })()"#;

/// Expression that renews the lease of the theme on the page: up to the number of the session.
pub const RENEW_LEASE_SESSION: &'static str = r#"(() => {
          const runtime = window.__codexThemeRuntime;
          if (!runtime || runtime.sessionId !== "#;

/// Expression that renews the lease of the theme on the page: from the number of the session to the
/// duration of the lease in milliseconds.
pub const RENEW_LEASE_DURATION: &'static str = r#") return false;
          const now = Date.now();
          if (runtime.hardExpiresAt && now >= runtime.hardExpiresAt) {
            runtime.restoreTheme?.(runtime.sessionId, true);
            return false;
          }
          runtime.leaseExpiresAt = Math.min(
            now + "#;

/// Expression that renews the lease of the theme on the page: behind the duration.
pub const RENEW_LEASE_END: &'static str = r#",
            runtime.hardExpiresAt ?? Number.POSITIVE_INFINITY
          );
          return true;
        })()"#;

/// Expression that takes the theme off the page and tells whether it is gone.
pub const REMOVE_THEME_EXPRESSION: &'static str = r#"(() => {
      const runtime = window.__codexThemeRuntime;
      if (runtime?.restoreTheme) return runtime.restoreTheme(runtime.sessionId, false);
      runtime?.observer?.disconnect();
      runtime?.schemeObserver?.disconnect();
      runtime?.composerLayoutObserver?.disconnect();
      if (runtime?.colorSchemeMedia && runtime?.syncColorScheme) {
        runtime.colorSchemeMedia.removeEventListener('change', runtime.syncColorScheme);
      }
      const eventTarget = runtime?.eventTarget ?? runtime?.root;
      if (eventTarget && runtime?.handleInput) {
        eventTarget.removeEventListener('input', runtime.handleInput, true);
      }
      if (eventTarget && runtime?.handleNavigation) {
        eventTarget.removeEventListener('click', runtime.handleNavigation, true);
      }
      if (runtime?.handleResize) {
        window.removeEventListener('resize', runtime.handleResize);
      }
      if (runtime?.frame) cancelAnimationFrame(runtime.frame);
      if (runtime?.homeFrame) cancelAnimationFrame(runtime.homeFrame);
      if (runtime?.contentFrame) cancelAnimationFrame(runtime.contentFrame);
      if (runtime?.metricsFrame) cancelAnimationFrame(runtime.metricsFrame);
      if (runtime?.resizeFrame) cancelAnimationFrame(runtime.resizeFrame);
      delete window.__codexThemeRuntime;
      document.querySelectorAll('[data-ct-home-prompt-native]').forEach(node => {
        const display = node.getAttribute('data-ct-home-prompt-display');
        const priority = node.getAttribute('data-ct-home-prompt-display-priority') ?? '';
        if (display === null) node.style.removeProperty('display');
        else node.style.setProperty('display', display, priority);
        node.removeAttribute('data-ct-home-prompt-native');
        node.removeAttribute('data-ct-home-prompt-display');
        node.removeAttribute('data-ct-home-prompt-display-priority');
      });
      document.getElementById('codex-theme-runtime-style')?.remove();
      document.documentElement?.removeAttribute('data-ct-theme');
      document.documentElement?.removeAttribute('data-ct-view');
      document.documentElement?.removeAttribute('data-ct-color-scheme');
      document.documentElement?.style.removeProperty('--ct-home-card-count');
      document.documentElement?.style.removeProperty('--ct-titlebar-safe-top');
      document.querySelectorAll('[data-ct-slot="conversation.stage"]').forEach(node => {
        node.style.removeProperty('--ct-conversation-banner-clearance');
        node.style.removeProperty('--ct-conversation-summary-width');
        node.style.removeProperty('--ct-conversation-content-left');
        node.style.removeProperty('--ct-conversation-content-width');
        node.style.removeProperty('--ct-conversation-header-safe-top');
      });
      document.querySelectorAll('[data-ct-sidebar-footer-height]').forEach(node => {
        const original = node.getAttribute('data-ct-sidebar-footer-height');
        if (original) node.style.setProperty('--sidebar-footer-height', original);
        else node.style.removeProperty('--sidebar-footer-height');
        node.removeAttribute('data-ct-sidebar-footer-height');
      });
      document.querySelectorAll('[data-ct-mount]').forEach(node => node.remove());
      document.querySelectorAll('[data-ct-slot]').forEach(node => node.removeAttribute('data-ct-slot'));
      document.querySelectorAll('[data-ct-composer-layout]')
        .forEach(node => node.removeAttribute('data-ct-composer-layout'));
      document.querySelectorAll('[data-ct-native-titlebar]')
        .forEach(node => node.removeAttribute('data-ct-native-titlebar'));
      return !document.getElementById('codex-theme-runtime-style')
        && !document.documentElement?.hasAttribute('data-ct-theme')
        && !document.documentElement?.hasAttribute('data-ct-color-scheme')
        && !document.querySelector('[data-ct-slot]')
        && !document.querySelector('[data-ct-mount]');
    })()"#;

/// Expression that puts a harmless probe style on the page and tells whether it took effect.
pub const PROBE_APPLY_EXPRESSION: &'static str = r#"(() => {
      if (!document.documentElement) return false;
      const id = 'codex-theme-smoke-probe';
      document.getElementById(id)?.remove();
      const style = document.createElement('style');
      style.id = id;
      style.textContent = ':root { --ct-smoke-probe: 1; }';
      document.documentElement.appendChild(style);
      document.documentElement.setAttribute('data-ct-smoke', 'active');
      return getComputedStyle(document.documentElement).getPropertyValue('--ct-smoke-probe').trim() === '1';
    })()"#;

/// Expression that takes the probe style off the page and tells whether it is gone.
pub const PROBE_REMOVE_EXPRESSION: &'static str = r#"(() => {
      document.getElementById('codex-theme-smoke-probe')?.remove();
      document.documentElement?.removeAttribute('data-ct-smoke');
      return !document.getElementById('codex-theme-smoke-probe') && !document.documentElement?.hasAttribute('data-ct-smoke');
    })()"#;

} // verus!
