//! The two operations of the shell, carried out against a window registry.
//!
//! Each operation is stated twice. [`outcome_of`] and [`state_after`] say
//! what it comes to, without a word on how. [`execute`] lets a sequencer
//! issue its requests one by one to the registry, as any host would be
//! driven, and is proved to arrive at exactly that.

use vstd::prelude::*;
use crate::error::ShellError;
use crate::registry::{RegistryView, WindowRegistry, WindowState};
use crate::sequencer::{Action, Operation, Progress, Sequencer};

verus! {

/// How `operation` ends on a host in the state `state`: it fails as a lookup
/// where no window carries its label, else as unsupported where the platform
/// renders no shadows, and succeeds otherwise.
pub open spec fn outcome_of(state: RegistryView, operation: Operation) -> Result<(), ShellError> {
    if !state.windows.contains_key(operation.label()@) {
        Err(ShellError::WindowNotFound)
    } else if !state.shadow_supported {
        Err(ShellError::UnsupportedPlatform)
    } else {
        Ok(())
    }
}

/// The state in which `operation` leaves a host that was in the state
/// `state`. A failed operation changes nothing. A successful one overwrites
/// the shadow of its window, opens the inspection panel on it where the
/// operation asks for that, and touches no other window.
pub open spec fn state_after(state: RegistryView, operation: Operation) -> RegistryView {
    if outcome_of(state, operation) is Err {
        state
    } else {
        let before = state.windows[operation.label()@];
        RegistryView {
            windows: state.windows.insert(
                operation.label()@,
                WindowState {
                    shadow: operation.shadow(),
                    inspector_open: before.inspector_open || operation.opens_inspector(),
                },
            ),
            ..state
        }
    }
}

/// What holds between the host and a sequencer that has been driven against
/// it from the state `start`: a failure leaves the host as it was and is the
/// failure that the operation is due, and each step that went through has
/// left its mark on the operation's window.
spec fn in_step(start: RegistryView, now: RegistryView, progress: Progress) -> bool {
    let operation = progress.operation;
    let label = operation.label()@;
    let shaded = WindowState { shadow: operation.shadow(), ..start.windows[label] };
    &&& progress.performed <= operation.script().len()
    &&& now.shadow_supported == start.shadow_supported
    &&& match progress.failure {
        Some(error) => now.windows =~= start.windows && outcome_of(start, operation) == Err::<
            (),
            ShellError,
        >(error),
        None => {
            &&& progress.performed >= 1 ==> start.windows.contains_key(label)
            &&& progress.performed >= 2 ==> start.shadow_supported
            &&& now.windows =~= if progress.performed <= 1 {
                start.windows
            } else if progress.performed == 2 {
                start.windows.insert(label, shaded)
            } else {
                start.windows.insert(label, WindowState { inspector_open: true, ..shaded })
            }
        },
    }
}

/// Carries `operation` out on `registry`: issues the requests of its script
/// in order, and stops at the first that fails.
pub fn execute(registry: &mut WindowRegistry, operation: Operation) -> (result: Result<(), ShellError>)
    ensures
        result == outcome_of(old(registry)@, operation),
        final(registry)@ == state_after(old(registry)@, operation),
{
    let ghost start = registry@;
    let mut sequencer = Sequencer::start(operation);
    loop
        invariant
            start == old(registry)@,
            sequencer@.operation == operation,
            in_step(start, registry@, sequencer@),
        decreases
            operation.script().len() - sequencer@.performed + (if sequencer@.failure is None { 1nat } else { 0nat }),
    {
        match sequencer.action() {
            Action::Finish => {
                return Ok(());
            },
            Action::Abort { error } => {
                return Err(error);
            },
            Action::Perform(request) => {
                let outcome = registry.perform(request);
                sequencer.advance(outcome);
            },
        }
    }
}

/// The shadow command: sets the shadow of the command's window to
/// `shadow_state`, whatever it was before.
pub fn set_window_shadow(registry: &mut WindowRegistry, shadow_state: bool) -> (result: Result<(), ShellError>)
    ensures
        result == outcome_of(old(registry)@, Operation::Toggle { enable: shadow_state }),
        final(registry)@ == state_after(old(registry)@, Operation::Toggle { enable: shadow_state }),
{
    execute(registry, Operation::Toggle { enable: shadow_state })
}

/// The bootstrap sequence: switches the shadow of the main window on and,
/// with the debug tools enabled, opens the inspection panel on it.
pub fn bootstrap(registry: &mut WindowRegistry, debug_tools_enabled: bool) -> (result: Result<(), ShellError>)
    ensures
        result == outcome_of(old(registry)@, Operation::Bootstrap { debug_tools_enabled }),
        final(registry)@ == state_after(old(registry)@, Operation::Bootstrap { debug_tools_enabled }),
{
    execute(registry, Operation::Bootstrap { debug_tools_enabled })
}

/// The text of the diagnostic with which `operation` is given up on `error`.
/// A failed lookup is reported with the label that no window carries. An
/// unsupported platform is reported in the words of the operation that met
/// it.
pub open spec fn diagnostic_text(operation: Operation, error: ShellError) -> Seq<char> {
    match error {
        ShellError::WindowNotFound => "window not found: "@ + operation.label()@,
        ShellError::UnsupportedPlatform => match operation {
            Operation::Bootstrap { .. } => "Window-Shadows: Unsupported platform!"@,
            Operation::Toggle { .. } => "window-shadows: unsupported platform!"@,
        },
    }
}

/// The diagnostic for a caller that gives up on a failed operation. It names
/// the step that failed: the lookup, with the label that was not found, or
/// the shadow effect.
pub fn diagnostic(operation: Operation, error: ShellError) -> (text: &'static str)
    ensures
        text@ == diagnostic_text(operation, error),
{
    proof {
        reveal_strlit("window not found: ");
        reveal_strlit("main");
        reveal_strlit("MOD_SPIDER_DB_WINDOW");
        reveal_strlit("window not found: main");
        reveal_strlit("window not found: MOD_SPIDER_DB_WINDOW");
        assert("window not found: main"@ =~= "window not found: "@ + "main"@);
        assert("window not found: MOD_SPIDER_DB_WINDOW"@ =~= "window not found: "@
            + "MOD_SPIDER_DB_WINDOW"@);
    }
    match operation {
        Operation::Bootstrap { .. } => match error {
            ShellError::WindowNotFound => "window not found: main",
            ShellError::UnsupportedPlatform => "Window-Shadows: Unsupported platform!",
        },
        Operation::Toggle { .. } => match error {
            ShellError::WindowNotFound => "window not found: MOD_SPIDER_DB_WINDOW",
            ShellError::UnsupportedPlatform => "window-shadows: unsupported platform!",
        },
    }
}

/// The two failures of an operation never share a diagnostic.
pub proof fn lemma_diagnostics_differ(operation: Operation)
    ensures
        diagnostic_text(operation, ShellError::WindowNotFound) != diagnostic_text(
            operation,
            ShellError::UnsupportedPlatform,
        ),
{
    reveal_strlit("window not found: ");
    reveal_strlit("Window-Shadows: Unsupported platform!");
    reveal_strlit("window-shadows: unsupported platform!");
    let lookup = diagnostic_text(operation, ShellError::WindowNotFound);
    let platform = diagnostic_text(operation, ShellError::UnsupportedPlatform);
    assert(lookup[6] == ' ');
    assert(platform[6] == '-');
}

} // verus!
