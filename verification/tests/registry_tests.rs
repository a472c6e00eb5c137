use texthook::registry::{HookError, HookState, Registry, SEARCH_GROUP_SIZE, TRANSLATION_GROUP_SIZE};

#[test]
fn attach_all_then_disable_all_leaves_installed_disabled() {
    let mut registry = Registry::new();
    assert_eq!(registry.attach_all(true, true, true), Ok(()));
    assert_eq!(registry.disable_all(), Ok(()));
    for i in 0..TRANSLATION_GROUP_SIZE {
        assert_eq!(registry.translation_state(i), HookState::InstalledDisabled);
    }
    for i in 0..SEARCH_GROUP_SIZE {
        assert_eq!(registry.search_state(i), HookState::InstalledDisabled);
    }
}

#[test]
fn attach_all_installs_disabled() {
    let mut registry = Registry::new();
    assert_eq!(registry.attach_all(true, true, true), Ok(()));
    for i in 0..TRANSLATION_GROUP_SIZE {
        assert_eq!(registry.translation_state(i), HookState::InstalledDisabled);
    }
    for i in 0..SEARCH_GROUP_SIZE {
        assert_eq!(registry.search_state(i), HookState::InstalledDisabled);
    }
}

#[test]
fn enable_all_enables_every_descriptor() {
    let mut registry = Registry::new();
    assert_eq!(registry.attach_all(true, true, true), Ok(()));
    assert_eq!(registry.enable_all(), Ok(()));
    for i in 0..TRANSLATION_GROUP_SIZE {
        assert_eq!(registry.translation_state(i), HookState::InstalledEnabled);
    }
    for i in 0..SEARCH_GROUP_SIZE {
        assert_eq!(registry.search_state(i), HookState::InstalledEnabled);
    }
}

#[test]
fn enable_then_disable_then_enable_again() {
    let mut registry = Registry::new();
    assert_eq!(registry.attach_all(true, true, true), Ok(()));
    assert_eq!(registry.enable_translation(), Ok(()));
    assert_eq!(registry.disable_translation(), Ok(()));
    for i in 0..TRANSLATION_GROUP_SIZE {
        assert_eq!(registry.translation_state(i), HookState::InstalledDisabled);
    }
    assert_eq!(registry.enable_translation(), Ok(()));
    for i in 0..TRANSLATION_GROUP_SIZE {
        assert_eq!(registry.translation_state(i), HookState::InstalledEnabled);
    }
}

#[test]
fn attach_twice_fails_with_already_installed() {
    let mut registry = Registry::new();
    assert_eq!(registry.attach_all(true, true, true), Ok(()));
    assert_eq!(registry.attach_all(true, true, true), Err(HookError::AlreadyInstalled));
}

#[test]
fn attach_failure_does_not_touch_later_group() {
    let mut registry = Registry::new();
    assert_eq!(registry.attach_all(true, false, false), Ok(()));
    assert_eq!(registry.attach_all(true, true, true), Err(HookError::AlreadyInstalled));
    for i in 0..SEARCH_GROUP_SIZE {
        assert_eq!(registry.search_state(i), HookState::Uninstalled);
    }
}

#[test]
fn attach_respects_group_flags() {
    let mut registry = Registry::new();
    assert_eq!(registry.attach_all(true, false, false), Ok(()));
    for i in 0..TRANSLATION_GROUP_SIZE {
        assert_eq!(registry.translation_state(i), HookState::InstalledDisabled);
    }
    for i in 0..SEARCH_GROUP_SIZE {
        assert_eq!(registry.search_state(i), HookState::Uninstalled);
    }
}

#[test]
fn attach_skips_search_without_parsed_encoding() {
    let mut registry = Registry::new();
    assert_eq!(registry.attach_all(true, true, false), Ok(()));
    for i in 0..SEARCH_GROUP_SIZE {
        assert_eq!(registry.search_state(i), HookState::Uninstalled);
    }
}

#[test]
fn enable_before_attach_fails_with_not_installed() {
    let mut registry = Registry::new();
    assert_eq!(registry.enable_translation(), Err(HookError::NotInstalled));
    assert_eq!(registry.enable_search(), Err(HookError::NotInstalled));
    assert_eq!(registry.enable_all(), Err(HookError::NotInstalled));
}

#[test]
fn disable_before_attach_fails_with_not_installed() {
    let mut registry = Registry::new();
    assert_eq!(registry.disable_translation(), Err(HookError::NotInstalled));
    assert_eq!(registry.disable_search(), Err(HookError::NotInstalled));
    assert_eq!(registry.disable_all(), Err(HookError::NotInstalled));
}

#[test]
fn new_registry_is_uninstalled() {
    let registry = Registry::new();
    for i in 0..TRANSLATION_GROUP_SIZE {
        assert_eq!(registry.translation_state(i), HookState::Uninstalled);
    }
    for i in 0..SEARCH_GROUP_SIZE {
        assert_eq!(registry.search_state(i), HookState::Uninstalled);
    }
}
