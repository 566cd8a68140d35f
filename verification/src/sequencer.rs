//! The order in which an operation asks its host for work.
//!
//! The shell never touches a window itself. It issues one request at a time
//! to a host, which owns the windows, and is told how the request went. A
//! [`Sequencer`] holds how far an operation has come and derives the next
//! action from that alone, so the same decisions govern every host.

use vstd::prelude::*;
use crate::error::ShellError;
use crate::label::{COMMAND_WINDOW_LABEL, MAIN_WINDOW_LABEL};

verus! {

/// One of the two things the shell does.
#[derive(Clone, Copy, Debug, PartialEq, Eq, Structural)]
pub enum Operation {
    /// Prepare the main window once, before the event loop starts.
    Bootstrap { debug_tools_enabled: bool },
    /// Switch the shadow of the command's window on or off.
    Toggle { enable: bool },
}

/// A single piece of work for the host.
#[derive(Clone, Copy, Debug, PartialEq, Eq)]
pub enum Request {
    /// Look the window up; nothing is changed.
    Resolve { label: &'static str },
    /// Render (`enable`) or remove the window's shadow.
    SetShadow { label: &'static str, enable: bool },
    /// Open the inspection panel on the window.
    OpenInspector { label: &'static str },
}

/// What the caller of a sequencer has to do next.
#[derive(Clone, Copy, Debug, PartialEq, Eq)]
pub enum Action {
    /// Hand the request to the host and report its outcome.
    Perform(Request),
    /// Every step succeeded; the operation is complete.
    Finish,
    /// A step failed; the operation is over and nothing may follow.
    Abort { error: ShellError },
}

impl Request {
    /// The label of the window that the request is about.
    pub open spec fn spec_label(self) -> &'static str {
        match self {
            Request::Resolve { label } => label,
            Request::SetShadow { label, .. } => label,
            Request::OpenInspector { label } => label,
        }
    }

    /// The label of the window that the request is about.
    #[verifier::when_used_as_spec(spec_label)]
    pub fn label(self) -> (label: &'static str)
        ensures
            label == self.spec_label(),
    {
        match self {
            Request::Resolve { label } => label,
            Request::SetShadow { label, .. } => label,
            Request::OpenInspector { label } => label,
        }
    }
}

impl Operation {
    /// The label of the one window that the operation works on.
    pub open spec fn spec_label(self) -> &'static str {
        match self {
            Operation::Bootstrap { .. } => MAIN_WINDOW_LABEL,
            Operation::Toggle { .. } => COMMAND_WINDOW_LABEL,
        }
    }

    /// The shadow state that the operation asks for: the bootstrap always
    /// switches the shadow on, the command passes its argument on.
    pub open spec fn spec_shadow(self) -> bool {
        match self {
            Operation::Bootstrap { .. } => true,
            Operation::Toggle { enable } => enable,
        }
    }

    /// Whether the operation ends by opening the inspection panel: only the
    /// bootstrap does, and only with the debug tools enabled.
    pub open spec fn spec_opens_inspector(self) -> bool {
        match self {
            Operation::Bootstrap { debug_tools_enabled } => debug_tools_enabled,
            Operation::Toggle { .. } => false,
        }
    }

    /// The requests of the operation, in the only order in which they may be
    /// issued: resolve the window, set its shadow, and last, where the
    /// operation asks for it, open the inspection panel.
    pub open spec fn script(self) -> Seq<Request> {
        let label = self.spec_label();
        let fixed = seq![
            Request::Resolve { label },
            Request::SetShadow { label, enable: self.spec_shadow() },
        ];
        if self.spec_opens_inspector() {
            fixed.push(Request::OpenInspector { label })
        } else {
            fixed
        }
    }

    /// The label of the one window that the operation works on.
    #[verifier::when_used_as_spec(spec_label)]
    pub fn label(self) -> (label: &'static str)
        ensures
            label == self.spec_label(),
    {
        match self {
            Operation::Bootstrap { .. } => MAIN_WINDOW_LABEL,
            Operation::Toggle { .. } => COMMAND_WINDOW_LABEL,
        }
    }

    /// The shadow state that the operation asks for.
    #[verifier::when_used_as_spec(spec_shadow)]
    pub fn shadow(self) -> (enable: bool)
        ensures
            enable == self.spec_shadow(),
    {
        match self {
            Operation::Bootstrap { .. } => true,
            Operation::Toggle { enable } => enable,
        }
    }

    /// Whether the operation ends by opening the inspection panel.
    #[verifier::when_used_as_spec(spec_opens_inspector)]
    pub fn opens_inspector(self) -> (opens: bool)
        ensures
            opens == self.spec_opens_inspector(),
    {
        match self {
            Operation::Bootstrap { debug_tools_enabled } => debug_tools_enabled,
            Operation::Toggle { .. } => false,
        }
    }
}

/// How far an operation has come: the model of a [`Sequencer`].
pub struct Progress {
    pub operation: Operation,
    /// How many requests of the script the host has performed.
    pub performed: nat,
    /// The failure that ended the operation, if one did.
    pub failure: Option<ShellError>,
}

impl Progress {
    /// An operation of which nothing has been done yet.
    pub open spec fn initial(operation: Operation) -> Progress {
        Progress { operation, performed: 0, failure: None }
    }

    /// Whether the operation is over, by completion or by failure.
    pub open spec fn halted(self) -> bool {
        self.failure is Some || self.performed >= self.operation.script().len()
    }

    /// The action that is due: after a failure nothing but the abort, else
    /// the next request of the script, else the end.
    pub open spec fn pending(self) -> Action {
        match self.failure {
            Some(error) => Action::Abort { error },
            None => if self.performed < self.operation.script().len() {
                Action::Perform(self.operation.script()[self.performed as int])
            } else {
                Action::Finish
            },
        }
    }

    /// The progress once the host has reported on the pending request. A
    /// success moves on by one request, a failure ends the operation with
    /// that failure, and an operation that is over stays as it is.
    pub open spec fn after(self, outcome: Result<(), ShellError>) -> Progress {
        if self.halted() {
            self
        } else {
            match outcome {
                Ok(_) => Progress { performed: self.performed + 1, ..self },
                Err(error) => Progress { failure: Some(error), ..self },
            }
        }
    }
}

impl Progress {
    /// The progress once the host has reported `outcomes`, one after the
    /// other.
    pub open spec fn after_all(self, outcomes: Seq<Result<(), ShellError>>) -> Progress
        decreases outcomes.len(),
    {
        if outcomes.len() == 0 {
            self
        } else {
            self.after_all(outcomes.drop_last()).after(outcomes.last())
        }
    }
}

/// Issues the requests of one operation in order and stops at the first
/// failure.
#[derive(Clone, Copy, Debug)]
pub struct Sequencer {
    operation: Operation,
    performed: u8,
    failure: Option<ShellError>,
}

impl View for Sequencer {
    type V = Progress;

    closed spec fn view(&self) -> Progress {
        Progress {
            operation: self.operation,
            performed: self.performed as nat,
            failure: self.failure,
        }
    }
}

impl Sequencer {
    /// A sequencer at the beginning of `operation`.
    pub fn start(operation: Operation) -> (sequencer: Sequencer)
        ensures
            sequencer@ == Progress::initial(operation),
    {
        Sequencer { operation, performed: 0, failure: None }
    }

    /// The operation that is being carried out.
    pub fn operation(&self) -> (operation: Operation)
        ensures
            operation == self@.operation,
    {
        self.operation
    }

    /// The action that is due now. It depends on the progress alone, so
    /// asking twice gives the same answer.
    pub fn action(&self) -> (action: Action)
        ensures
            action == self@.pending(),
    {
        match self.failure {
            Some(error) => Action::Abort { error },
            None => {
                let label = self.operation.label();
                if self.performed == 0 {
                    Action::Perform(Request::Resolve { label })
                } else if self.performed == 1 {
                    Action::Perform(Request::SetShadow { label, enable: self.operation.shadow() })
                } else if self.performed == 2 && self.operation.opens_inspector() {
                    Action::Perform(Request::OpenInspector { label })
                } else {
                    Action::Finish
                }
            },
        }
    }

    /// Takes note of how the host fared with the pending request.
    pub fn advance(&mut self, outcome: Result<(), ShellError>)
        ensures
            final(self)@ == old(self)@.after(outcome),
    {
        if self.failure.is_none() {
            let steps: u8 = if self.operation.opens_inspector() { 3 } else { 2 };
            if self.performed < steps {
                match outcome {
                    Ok(_) => {
                        self.performed = self.performed + 1;
                    },
                    Err(error) => {
                        self.failure = Some(error);
                    },
                }
            }
        }
    }
}

} // verus!
