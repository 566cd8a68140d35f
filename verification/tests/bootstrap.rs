use desktop_shell::error::ShellError;
use desktop_shell::label::{COMMAND_WINDOW_LABEL, MAIN_WINDOW_LABEL};
use desktop_shell::registry::{WindowRegistry, WindowState};
use desktop_shell::sequencer::Operation;
use desktop_shell::shell::{bootstrap, execute, set_window_shadow};

fn shell_with_main_window(shadow_supported: bool) -> WindowRegistry {
    let mut registry = WindowRegistry::new(shadow_supported);
    assert!(registry.open_window(MAIN_WINDOW_LABEL));
    registry
}

#[test]
fn bootstrap_enables_shadow_on_main_window() {
    let mut registry = shell_with_main_window(true);
    assert_eq!(bootstrap(&mut registry, false), Ok(()));
    assert_eq!(registry.window(MAIN_WINDOW_LABEL).map(|w| w.shadow), Some(true));
}

#[test]
fn bootstrap_in_debug_opens_inspector() {
    let mut registry = shell_with_main_window(true);
    assert_eq!(bootstrap(&mut registry, true), Ok(()));
    assert_eq!(
        registry.window(MAIN_WINDOW_LABEL),
        Some(WindowState { shadow: true, inspector_open: true })
    );
}

#[test]
fn bootstrap_without_debug_leaves_inspector_closed() {
    let mut registry = shell_with_main_window(true);
    assert_eq!(bootstrap(&mut registry, false), Ok(()));
    assert_eq!(
        registry.window(MAIN_WINDOW_LABEL),
        Some(WindowState { shadow: true, inspector_open: false })
    );
}

#[test]
fn bootstrap_without_main_window_fails_as_lookup() {
    for debug_tools_enabled in [false, true] {
        let mut registry = WindowRegistry::new(true);
        assert!(registry.open_window(COMMAND_WINDOW_LABEL));
        assert_eq!(bootstrap(&mut registry, debug_tools_enabled), Err(ShellError::WindowNotFound));
        assert_eq!(registry.window(COMMAND_WINDOW_LABEL), Some(WindowState::fresh()));
        assert!(!registry.contains(MAIN_WINDOW_LABEL));
    }
}

#[test]
fn bootstrap_on_unsupported_platform_fails_before_inspector() {
    let mut registry = shell_with_main_window(false);
    assert_eq!(bootstrap(&mut registry, true), Err(ShellError::UnsupportedPlatform));
    assert_eq!(registry.window(MAIN_WINDOW_LABEL), Some(WindowState::fresh()));
}

#[test]
fn bootstrap_does_not_address_the_command_window() {
    let mut registry = shell_with_main_window(true);
    assert!(registry.open_window(COMMAND_WINDOW_LABEL));
    assert_eq!(bootstrap(&mut registry, true), Ok(()));
    assert_eq!(registry.window(COMMAND_WINDOW_LABEL), Some(WindowState::fresh()));
}

#[test]
fn bootstrap_then_toggles_on_a_shell_with_both_windows() {
    let mut registry = shell_with_main_window(true);
    assert!(registry.open_window(COMMAND_WINDOW_LABEL));
    assert_eq!(bootstrap(&mut registry, false), Ok(()));
    assert_eq!(set_window_shadow(&mut registry, true), Ok(()));
    assert_eq!(set_window_shadow(&mut registry, false), Ok(()));
    assert_eq!(
        registry.window(MAIN_WINDOW_LABEL),
        Some(WindowState { shadow: true, inspector_open: false })
    );
    assert_eq!(
        registry.window(COMMAND_WINDOW_LABEL),
        Some(WindowState { shadow: false, inspector_open: false })
    );
}

#[test]
fn bootstrap_then_toggle_on_a_shell_with_only_main_fails() {
    let mut registry = shell_with_main_window(true);
    assert_eq!(bootstrap(&mut registry, false), Ok(()));
    assert_eq!(set_window_shadow(&mut registry, false), Err(ShellError::WindowNotFound));
    assert_eq!(registry.window(MAIN_WINDOW_LABEL).map(|w| w.shadow), Some(true));
}

#[test]
fn execute_agrees_with_the_named_operations() {
    for debug_tools_enabled in [false, true] {
        let mut by_name = shell_with_main_window(true);
        let mut by_operation = shell_with_main_window(true);
        assert_eq!(
            bootstrap(&mut by_name, debug_tools_enabled),
            execute(&mut by_operation, Operation::Bootstrap { debug_tools_enabled })
        );
        assert_eq!(by_name.window(MAIN_WINDOW_LABEL), by_operation.window(MAIN_WINDOW_LABEL));
    }
    for enable in [false, true] {
        let mut by_name = WindowRegistry::new(true);
        let mut by_operation = WindowRegistry::new(true);
        assert!(by_name.open_window(COMMAND_WINDOW_LABEL));
        assert!(by_operation.open_window(COMMAND_WINDOW_LABEL));
        assert_eq!(
            set_window_shadow(&mut by_name, enable),
            execute(&mut by_operation, Operation::Toggle { enable })
        );
        assert_eq!(by_name.window(COMMAND_WINDOW_LABEL), by_operation.window(COMMAND_WINDOW_LABEL));
    }
}

#[test]
fn bootstrap_twice_keeps_the_state() {
    let mut registry = shell_with_main_window(true);
    assert_eq!(bootstrap(&mut registry, true), Ok(()));
    assert_eq!(bootstrap(&mut registry, false), Ok(()));
    assert_eq!(
        registry.window(MAIN_WINDOW_LABEL),
        Some(WindowState { shadow: true, inspector_open: true })
    );
}
