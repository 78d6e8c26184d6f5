//! When a theme counts as applied.
use retheme_codex::startup::{
    missing_startup_slots, startup_slots_ready, ApplyProgress, ApplyStep,
    REQUIRED_COMPACT_HOME_STARTUP_SLOTS, REQUIRED_COMPOSER_STARTUP_SLOTS,
    REQUIRED_CONVERSATION_STARTUP_SLOTS, REQUIRED_GLOBAL_STARTUP_SLOTS,
    REQUIRED_HOME_STARTUP_SLOTS, REQUIRED_STARTUP_VIEW,
};

#[test]
fn startup_requires_core_slots_but_not_optional_decorations_or_health_checks() {
    let slots = REQUIRED_GLOBAL_STARTUP_SLOTS
        .iter()
        .chain(&REQUIRED_COMPOSER_STARTUP_SLOTS)
        .chain(&REQUIRED_HOME_STARTUP_SLOTS)
        .map(|slot| (*slot).to_owned())
        .chain(["view:home".to_owned()])
        .collect::<Vec<_>>();

    assert!(startup_slots_ready(&slots));

    let mut diagnostic_slots = slots.clone();
    diagnostic_slots.push("health.hero.invisible".into());
    assert!(startup_slots_ready(&diagnostic_slots));

    for optional_slot in [
        "home.hero.foreground",
        "conversation.banner.foreground",
        "sidebar.header.background",
        "sidebar.header.decoration",
    ] {
        assert!(
            !REQUIRED_GLOBAL_STARTUP_SLOTS.contains(&optional_slot)
                && !REQUIRED_COMPOSER_STARTUP_SLOTS.contains(&optional_slot)
                && !REQUIRED_HOME_STARTUP_SLOTS.contains(&optional_slot)
                && !REQUIRED_COMPACT_HOME_STARTUP_SLOTS.contains(&optional_slot)
                && !REQUIRED_CONVERSATION_STARTUP_SLOTS.contains(&optional_slot),
            "{optional_slot} must stay optional"
        );
    }

    let mut missing_core = slots;
    missing_core.retain(|slot| slot != "composer.editor");
    assert!(!startup_slots_ready(&missing_core));
    assert_eq!(missing_startup_slots(&missing_core), ["composer.editor"]);

    let conversation_slots = REQUIRED_GLOBAL_STARTUP_SLOTS
        .iter()
        .chain(&REQUIRED_COMPOSER_STARTUP_SLOTS)
        .chain(&REQUIRED_CONVERSATION_STARTUP_SLOTS)
        .map(|slot| (*slot).to_owned())
        .chain(["view:conversation".to_owned()])
        .collect::<Vec<_>>();
    assert!(startup_slots_ready(&conversation_slots));

    let compact_home_slots = REQUIRED_GLOBAL_STARTUP_SLOTS
        .iter()
        .chain(&REQUIRED_COMPOSER_STARTUP_SLOTS)
        .chain(&REQUIRED_COMPACT_HOME_STARTUP_SLOTS)
        .map(|slot| (*slot).to_owned())
        .chain(["view:home-compact".to_owned()])
        .collect::<Vec<_>>();
    assert!(startup_slots_ready(&compact_home_slots));

    let missing_view = REQUIRED_GLOBAL_STARTUP_SLOTS
        .iter()
        .chain(&REQUIRED_COMPOSER_STARTUP_SLOTS)
        .map(|slot| (*slot).to_owned())
        .collect::<Vec<_>>();
    assert_eq!(
        missing_startup_slots(&missing_view),
        [REQUIRED_STARTUP_VIEW]
    );
}

fn compact_home() -> Vec<String> {
    REQUIRED_GLOBAL_STARTUP_SLOTS
        .iter()
        .chain(&REQUIRED_COMPOSER_STARTUP_SLOTS)
        .chain(&REQUIRED_COMPACT_HOME_STARTUP_SLOTS)
        .map(|slot| (*slot).to_owned())
        .chain(["view:home-compact".to_owned()])
        .collect()
}

#[test]
fn the_first_view_counts() {
    let mut slots = compact_home();
    slots.push("view:home".into());
    assert!(startup_slots_ready(&slots));
    slots.insert(0, "view:other".into());
    assert_eq!(missing_startup_slots(&slots), [REQUIRED_STARTUP_VIEW]);
    assert_eq!(missing_startup_slots(&["view:".to_owned()]), [REQUIRED_STARTUP_VIEW]);
}

#[test]
fn a_theme_is_applied_once_nothing_is_missing() {
    let mut progress = ApplyProgress::new();
    assert_eq!(progress.command_id, 2);
    assert!(matches!(progress.advance(None, false), ApplyStep::TryAgain));
    assert_eq!(progress.command_id, 3);
    let mut partial = compact_home();
    partial.retain(|slot| slot != "main" && slot != "composer.region");
    assert!(matches!(progress.advance(Some(partial.clone()), false), ApplyStep::TryAgain));
    assert_eq!(progress.command_id, 4);
    assert_eq!(progress.last_slots, partial);
    match progress.advance(Some(compact_home()), true) {
        ApplyStep::Applied(slots) => assert_eq!(slots, compact_home()),
        other => panic!("{other:?}"),
    }
    assert_eq!(progress.command_id, 4);
}

#[test]
fn the_failure_to_apply_a_theme_names_what_is_missing() {
    let mut progress = ApplyProgress::new();
    let mut partial = compact_home();
    partial.retain(|slot| slot != "main" && slot != "composer.region");
    assert!(matches!(progress.advance(Some(partial), false), ApplyStep::TryAgain));
    match progress.advance(None, true) {
        ApplyStep::Failed(error) => assert_eq!(
            error.message(),
            "等待 ChatGPT 主题界面就绪超时，缺少核心区域：main, composer.region"
        ),
        other => panic!("{other:?}"),
    }
}

#[test]
fn an_application_lets_the_page_load_assets_first() {
    assert_eq!(
        ApplyProgress::opening_command(),
        "{\"id\":1,\"method\":\"Page.setBypassCSP\",\"params\":{\"enabled\":true}}"
    );
    let mut progress = ApplyProgress::new();
    assert_eq!(
        progress.next_command("1"),
        "{\"id\":2,\"method\":\"Runtime.evaluate\",\"params\":{\"awaitPromise\":true,\"expression\":\"1\",\"returnByValue\":true}}"
    );
    progress.advance(None, false);
    assert!(progress.next_command("1").starts_with("{\"id\":3,"));
}
