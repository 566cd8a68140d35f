use desktop_shell::error::ShellError;
use desktop_shell::label::{COMMAND_WINDOW_LABEL, MAIN_WINDOW_LABEL};
use desktop_shell::registry::{WindowRegistry, WindowState};
use desktop_shell::shell::set_window_shadow;

fn shell_with_command_window(shadow_supported: bool) -> WindowRegistry {
    let mut registry = WindowRegistry::new(shadow_supported);
    assert!(registry.open_window(COMMAND_WINDOW_LABEL));
    registry
}

#[test]
fn toggle_on_sets_shadow() {
    let mut registry = shell_with_command_window(true);
    assert_eq!(set_window_shadow(&mut registry, true), Ok(()));
    assert_eq!(
        registry.window(COMMAND_WINDOW_LABEL),
        Some(WindowState { shadow: true, inspector_open: false })
    );
}

#[test]
fn toggle_off_clears_shadow() {
    let mut registry = shell_with_command_window(true);
    assert_eq!(set_window_shadow(&mut registry, true), Ok(()));
    assert_eq!(set_window_shadow(&mut registry, false), Ok(()));
    assert_eq!(
        registry.window(COMMAND_WINDOW_LABEL),
        Some(WindowState { shadow: false, inspector_open: false })
    );
}

#[test]
fn toggle_state_equals_value_for_both_values() {
    for value in [false, true] {
        for initial in [false, true] {
            let mut registry = shell_with_command_window(true);
            assert_eq!(set_window_shadow(&mut registry, initial), Ok(()));
            assert_eq!(set_window_shadow(&mut registry, value), Ok(()));
            assert_eq!(registry.window(COMMAND_WINDOW_LABEL).map(|w| w.shadow), Some(value));
        }
    }
}

#[test]
fn toggle_twice_with_same_value_is_idempotent() {
    for value in [false, true] {
        let mut registry = shell_with_command_window(true);
        assert_eq!(set_window_shadow(&mut registry, value), Ok(()));
        let once = registry.window(COMMAND_WINDOW_LABEL);
        assert_eq!(set_window_shadow(&mut registry, value), Ok(()));
        assert_eq!(registry.window(COMMAND_WINDOW_LABEL), once);
        assert_eq!(once.map(|w| w.shadow), Some(value));
    }
}

#[test]
fn toggle_alternating_leaves_last_value() {
    let mut registry = shell_with_command_window(true);
    for value in [true, false, true] {
        assert_eq!(set_window_shadow(&mut registry, value), Ok(()));
    }
    assert_eq!(registry.window(COMMAND_WINDOW_LABEL).map(|w| w.shadow), Some(true));
}

#[test]
fn toggle_last_write_wins_ending_in_false() {
    let mut registry = shell_with_command_window(true);
    for value in [true, true, false, true, false] {
        assert_eq!(set_window_shadow(&mut registry, value), Ok(()));
    }
    assert_eq!(registry.window(COMMAND_WINDOW_LABEL).map(|w| w.shadow), Some(false));
}

#[test]
fn toggle_without_target_window_fails_as_lookup() {
    let mut registry = WindowRegistry::new(true);
    assert_eq!(set_window_shadow(&mut registry, true), Err(ShellError::WindowNotFound));
    assert!(!registry.contains(COMMAND_WINDOW_LABEL));
}

#[test]
fn toggle_without_target_window_mutates_no_other_window() {
    let mut registry = WindowRegistry::new(true);
    assert!(registry.open_window(MAIN_WINDOW_LABEL));
    assert!(registry.open_window("external"));
    assert_eq!(set_window_shadow(&mut registry, true), Err(ShellError::WindowNotFound));
    assert_eq!(registry.window(MAIN_WINDOW_LABEL), Some(WindowState::fresh()));
    assert_eq!(registry.window("external"), Some(WindowState::fresh()));
    assert_eq!(registry.window(COMMAND_WINDOW_LABEL), None);
}

#[test]
fn toggle_does_not_address_the_main_window() {
    let mut registry = WindowRegistry::new(true);
    assert!(registry.open_window(MAIN_WINDOW_LABEL));
    assert!(registry.open_window(COMMAND_WINDOW_LABEL));
    assert_eq!(set_window_shadow(&mut registry, true), Ok(()));
    assert_eq!(registry.window(MAIN_WINDOW_LABEL), Some(WindowState::fresh()));
    assert_eq!(
        registry.window(COMMAND_WINDOW_LABEL),
        Some(WindowState { shadow: true, inspector_open: false })
    );
}

#[test]
fn toggle_on_unsupported_platform_fails_and_changes_nothing() {
    for value in [false, true] {
        let mut registry = shell_with_command_window(false);
        assert_eq!(set_window_shadow(&mut registry, value), Err(ShellError::UnsupportedPlatform));
        assert_eq!(registry.window(COMMAND_WINDOW_LABEL), Some(WindowState::fresh()));
    }
}

#[test]
fn toggle_lookup_failure_comes_before_platform_failure() {
    let mut registry = WindowRegistry::new(false);
    assert_eq!(set_window_shadow(&mut registry, true), Err(ShellError::WindowNotFound));
}

#[test]
fn toggle_keeps_inspector_as_it_was() {
    let mut registry = shell_with_command_window(true);
    assert_eq!(registry.open_inspector(COMMAND_WINDOW_LABEL), Ok(()));
    assert_eq!(set_window_shadow(&mut registry, true), Ok(()));
    assert_eq!(
        registry.window(COMMAND_WINDOW_LABEL),
        Some(WindowState { shadow: true, inspector_open: true })
    );
}

#[test]
fn toggle_after_window_was_closed_fails() {
    let mut registry = shell_with_command_window(true);
    assert_eq!(set_window_shadow(&mut registry, true), Ok(()));
    assert!(registry.close_window(COMMAND_WINDOW_LABEL));
    assert_eq!(set_window_shadow(&mut registry, false), Err(ShellError::WindowNotFound));
}
