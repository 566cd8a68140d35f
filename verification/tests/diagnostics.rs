use desktop_shell::error::{shadow_outcome, ShellError};
use desktop_shell::sequencer::Operation;
use desktop_shell::shell::diagnostic;

#[test]
fn diagnostics_for_the_shadow_command() {
    for enable in [false, true] {
        let toggle = Operation::Toggle { enable };
        assert_eq!(
            diagnostic(toggle, ShellError::WindowNotFound),
            "window not found: MOD_SPIDER_DB_WINDOW"
        );
        assert_eq!(
            diagnostic(toggle, ShellError::UnsupportedPlatform),
            "window-shadows: unsupported platform!"
        );
    }
}

#[test]
fn diagnostics_for_the_bootstrap() {
    for debug_tools_enabled in [false, true] {
        let bootstrap = Operation::Bootstrap { debug_tools_enabled };
        assert_eq!(diagnostic(bootstrap, ShellError::WindowNotFound), "window not found: main");
        assert_eq!(
            diagnostic(bootstrap, ShellError::UnsupportedPlatform),
            "Window-Shadows: Unsupported platform!"
        );
    }
}

#[test]
fn diagnostics_tell_the_failures_apart() {
    for operation in [
        Operation::Toggle { enable: true },
        Operation::Bootstrap { debug_tools_enabled: false },
    ] {
        assert_ne!(
            diagnostic(operation, ShellError::WindowNotFound),
            diagnostic(operation, ShellError::UnsupportedPlatform)
        );
    }
}

#[test]
fn shadow_outcome_passes_success_on() {
    assert_eq!(shadow_outcome(Ok(())), Ok(()));
}

#[test]
fn shadow_outcome_reports_the_platform() {
    assert_eq!(
        shadow_outcome(Err(window_shadows::Error::UnsupportedPlatform)),
        Err(ShellError::UnsupportedPlatform)
    );
}
