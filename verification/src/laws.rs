//! What holds of the operations on every registry, and of a sequencer
//! with every host.
//!
//! The laws on registries are stated over [`outcome_of`] and
//! [`state_after`], the functions in which `execute`, `set_window_shadow` and
//! `bootstrap` state their own results, so each law holds of every call of
//! those. The laws on sequencers are stated over [`Progress`], the model of a
//! `Sequencer`, and hold whatever the host reports.

use vstd::prelude::*;
use crate::error::ShellError;
use crate::label::{lemma_labels_differ, COMMAND_WINDOW_LABEL, MAIN_WINDOW_LABEL};
use crate::registry::RegistryView;
use crate::sequencer::{Action, Operation, Progress};
use crate::shell::{outcome_of, state_after};

verus! {

/// The state after one shadow command for each value of `values`, in order.
pub open spec fn after_toggles(state: RegistryView, values: Seq<bool>) -> RegistryView
    decreases values.len(),
{
    if values.len() == 0 {
        state
    } else {
        state_after(
            after_toggles(state, values.drop_last()),
            Operation::Toggle { enable: values.last() },
        )
    }
}

/// Where the command's window exists and the platform renders shadows, the
/// command succeeds and leaves the window's shadow equal to the value it was
/// given.
pub proof fn law_toggle_sets_shadow(state: RegistryView, value: bool)
    requires
        state.windows.contains_key(COMMAND_WINDOW_LABEL@),
        state.shadow_supported,
    ensures
        outcome_of(state, Operation::Toggle { enable: value }) is Ok,
        state_after(state, Operation::Toggle { enable: value }).windows[COMMAND_WINDOW_LABEL@].shadow
            == value,
{
}

/// Giving the command the same value a second time changes neither the state
/// nor the answer.
pub proof fn law_toggle_idempotent(state: RegistryView, value: bool)
    ensures
        ({
            let toggle = Operation::Toggle { enable: value };
            &&& state_after(state_after(state, toggle), toggle) == state_after(state, toggle)
            &&& outcome_of(state_after(state, toggle), toggle) == outcome_of(state, toggle)
        }),
{
    let toggle = Operation::Toggle { enable: value };
    assert(state_after(state_after(state, toggle), toggle).windows =~= state_after(
        state,
        toggle,
    ).windows);
}

/// Of two commands in a row only the second shows: the shadow is overwritten,
/// never combined with what it was.
pub proof fn law_toggle_overwrites(state: RegistryView, first: bool, second: bool)
    ensures
        state_after(
            state_after(state, Operation::Toggle { enable: first }),
            Operation::Toggle { enable: second },
        ) == state_after(state, Operation::Toggle { enable: second }),
{
    let once = state_after(state, Operation::Toggle { enable: first });
    assert(state_after(once, Operation::Toggle { enable: second }).windows =~= state_after(
        state,
        Operation::Toggle { enable: second },
    ).windows);
}

/// The last write wins: after any number of commands, at least one, on a
/// platform that renders shadows, the shadow of the command's window equals
/// the value given last.
pub proof fn law_last_toggle_wins(state: RegistryView, values: Seq<bool>)
    requires
        state.windows.contains_key(COMMAND_WINDOW_LABEL@),
        state.shadow_supported,
        values.len() > 0,
    ensures
        after_toggles(state, values).windows[COMMAND_WINDOW_LABEL@].shadow == values.last(),
{
    lemma_toggles_keep_window(state, values.drop_last());
}

/// Commands neither close the command's window nor change the platform.
proof fn lemma_toggles_keep_window(state: RegistryView, values: Seq<bool>)
    requires
        state.windows.contains_key(COMMAND_WINDOW_LABEL@),
    ensures
        after_toggles(state, values).windows.contains_key(COMMAND_WINDOW_LABEL@),
        after_toggles(state, values).shadow_supported == state.shadow_supported,
    decreases values.len(),
{
    if values.len() > 0 {
        lemma_toggles_keep_window(state, values.drop_last());
    }
}

/// Where the main window exists and the platform renders shadows, the
/// bootstrap succeeds and leaves the shadow of the main window on, with or
/// without the debug tools.
pub proof fn law_bootstrap_enables_shadow(state: RegistryView, debug_tools_enabled: bool)
    requires
        state.windows.contains_key(MAIN_WINDOW_LABEL@),
        state.shadow_supported,
    ensures
        outcome_of(state, Operation::Bootstrap { debug_tools_enabled }) is Ok,
        state_after(state, Operation::Bootstrap { debug_tools_enabled }).windows[MAIN_WINDOW_LABEL@].shadow,
{
}

/// A successful bootstrap with the debug tools enabled leaves the inspection
/// panel of the main window open; without them it leaves the panel as it
/// was, so a panel that was closed stays closed.
pub proof fn law_bootstrap_inspector(state: RegistryView, debug_tools_enabled: bool)
    requires
        state.windows.contains_key(MAIN_WINDOW_LABEL@),
        state.shadow_supported,
    ensures
        ({
            let after = state_after(state, Operation::Bootstrap { debug_tools_enabled });
            let before = state.windows[MAIN_WINDOW_LABEL@].inspector_open;
            &&& debug_tools_enabled ==> after.windows[MAIN_WINDOW_LABEL@].inspector_open
            &&& !debug_tools_enabled ==> after.windows[MAIN_WINDOW_LABEL@].inspector_open == before
        }),
{
}

/// Where no window carries the command's label, the command fails as a
/// lookup and changes nothing: no other window stands in for the missing one.
pub proof fn law_toggle_without_window(state: RegistryView, value: bool)
    requires
        !state.windows.contains_key(COMMAND_WINDOW_LABEL@),
    ensures
        outcome_of(state, Operation::Toggle { enable: value }) == Err::<(), ShellError>(
            ShellError::WindowNotFound,
        ),
        state_after(state, Operation::Toggle { enable: value }) == state,
{
}

/// An operation that fails, for whichever reason, changes nothing.
pub proof fn law_failure_changes_nothing(state: RegistryView, operation: Operation)
    requires
        outcome_of(state, operation) is Err,
    ensures
        state_after(state, operation) == state,
{
}

/// No operation opens or closes a window, changes the platform, or touches a
/// window other than the one that carries its label.
pub proof fn law_other_windows_untouched(state: RegistryView, operation: Operation, label: Seq<char>)
    requires
        label != operation.label()@,
    ensures
        state_after(state, operation).shadow_supported == state.shadow_supported,
        state_after(state, operation).windows.dom() == state.windows.dom(),
        state.windows.contains_key(label) ==> state_after(state, operation).windows[label]
            == state.windows[label],
{
    assert(state_after(state, operation).windows.dom() =~= state.windows.dom());
}

/// The two operations never meet: the bootstrap leaves the command's window
/// as it is, and the command leaves the main window as it is. A shadow that
/// the bootstrap switched on is therefore out of the command's reach.
pub proof fn law_operations_keep_apart(state: RegistryView, debug_tools_enabled: bool, value: bool)
    ensures
        state.windows.contains_key(COMMAND_WINDOW_LABEL@) ==> state_after(
            state,
            Operation::Bootstrap { debug_tools_enabled },
        ).windows[COMMAND_WINDOW_LABEL@] == state.windows[COMMAND_WINDOW_LABEL@],
        state.windows.contains_key(MAIN_WINDOW_LABEL@) ==> state_after(
            state,
            Operation::Toggle { enable: value },
        ).windows[MAIN_WINDOW_LABEL@] == state.windows[MAIN_WINDOW_LABEL@],
{
    lemma_labels_differ();
}

/// Reports are taken in one by one: a run of them can be split anywhere.
proof fn lemma_after_all_split(
    progress: Progress,
    head: Seq<Result<(), ShellError>>,
    rest: Seq<Result<(), ShellError>>,
)
    ensures
        progress.after_all(head + rest) == progress.after_all(head).after_all(rest),
    decreases rest.len(),
{
    if rest.len() == 0 {
        assert(head + rest =~= head);
    } else {
        assert((head + rest).drop_last() =~= head + rest.drop_last());
        assert((head + rest).last() == rest.last());
        lemma_after_all_split(progress, head, rest.drop_last());
    }
}

/// An operation that is over takes no further report into account.
proof fn lemma_halted_stays(progress: Progress, outcomes: Seq<Result<(), ShellError>>)
    requires
        progress.halted(),
    ensures
        progress.after_all(outcomes) == progress,
    decreases outcomes.len(),
{
    if outcomes.len() > 0 {
        lemma_halted_stays(progress, outcomes.drop_last());
    }
}

/// As long as the host reports success, the sequencer has performed as many
/// requests as there were reports, up to the length of the script.
proof fn lemma_successes_count(operation: Operation, outcomes: Seq<Result<(), ShellError>>)
    requires
        forall|i: int| 0 <= i < outcomes.len() ==> outcomes[i] is Ok,
    ensures
        Progress::initial(operation).after_all(outcomes) == (Progress {
            operation,
            performed: if outcomes.len() <= operation.script().len() {
                outcomes.len()
            } else {
                operation.script().len()
            },
            failure: None,
        }),
    decreases outcomes.len(),
{
    if outcomes.len() > 0 {
        lemma_successes_count(operation, outcomes.drop_last());
    }
}

/// The requests are issued in the order of the script: after as many
/// successes as there are requests before it, each request is the one that
/// is pending.
pub proof fn law_requests_follow_script(operation: Operation, outcomes: Seq<Result<(), ShellError>>)
    requires
        outcomes.len() < operation.script().len(),
        forall|i: int| 0 <= i < outcomes.len() ==> outcomes[i] is Ok,
    ensures
        Progress::initial(operation).after_all(outcomes).pending() == Action::Perform(
            operation.script()[outcomes.len() as int],
        ),
{
    lemma_successes_count(operation, outcomes);
}

/// Once every request of the script has succeeded the operation finishes,
/// and no later report changes that.
pub proof fn law_finishes_after_script(operation: Operation, outcomes: Seq<Result<(), ShellError>>)
    requires
        outcomes.len() >= operation.script().len(),
        forall|i: int| 0 <= i < operation.script().len() ==> outcomes[i] is Ok,
    ensures
        Progress::initial(operation).after_all(outcomes).pending() == Action::Finish,
{
    let steps = operation.script().len() as int;
    let head = outcomes.subrange(0, steps);
    let rest = outcomes.subrange(steps, outcomes.len() as int);
    assert(outcomes =~= head + rest);
    lemma_after_all_split(Progress::initial(operation), head, rest);
    lemma_successes_count(operation, head);
    lemma_halted_stays(Progress::initial(operation).after_all(head), rest);
}

/// The first failure that the host reports on a request of the script ends
/// the operation with that failure: no request follows it, whatever is
/// reported afterwards.
pub proof fn law_first_failure_aborts(
    operation: Operation,
    outcomes: Seq<Result<(), ShellError>>,
    at: int,
    error: ShellError,
)
    requires
        0 <= at < outcomes.len(),
        at < operation.script().len(),
        outcomes[at] == Err::<(), ShellError>(error),
        forall|i: int| 0 <= i < at ==> outcomes[i] is Ok,
    ensures
        Progress::initial(operation).after_all(outcomes).pending() == (Action::Abort { error }),
{
    let head = outcomes.subrange(0, at);
    let upto = outcomes.subrange(0, at + 1);
    let rest = outcomes.subrange(at + 1, outcomes.len() as int);
    assert(outcomes =~= upto + rest);
    assert(upto.drop_last() =~= head);
    lemma_successes_count(operation, head);
    lemma_after_all_split(Progress::initial(operation), upto, rest);
    lemma_halted_stays(Progress::initial(operation).after_all(upto), rest);
}

} // verus!
