//! A registry of labelled windows: the host that the shell's operations are
//! proved against.
//!
//! The registry stands for the part of a GUI runtime that the shell relies
//! on. It maps each label to the state of the one window that carries it, and
//! knows whether the platform can render shadows at all. It performs the
//! requests of a sequencer on that state alone, so an operation can be run,
//! and a missing window or an unsupported platform provoked, without a
//! display.

use vstd::prelude::*;
use crate::error::ShellError;
use crate::sequencer::Request;

verus! {

/// What the shell can observe of a window.
#[derive(Clone, Copy, Debug, PartialEq, Eq, Structural)]
pub struct WindowState {
    /// Whether the drop shadow is rendered.
    pub shadow: bool,
    /// Whether the inspection panel is open.
    pub inspector_open: bool,
}

impl WindowState {
    /// The state of a window that has just been opened: no shadow, and the
    /// inspection panel closed.
    pub open spec fn spec_fresh() -> WindowState {
        WindowState { shadow: false, inspector_open: false }
    }

    /// The state of a window that has just been opened.
    #[verifier::when_used_as_spec(spec_fresh)]
    pub fn fresh() -> (state: WindowState)
        ensures
            state == WindowState::spec_fresh(),
    {
        WindowState { shadow: false, inspector_open: false }
    }
}

/// The model of a [`WindowRegistry`]: the windows by label, and what the
/// platform is capable of.
pub struct RegistryView {
    pub windows: Map<Seq<char>, WindowState>,
    pub shadow_supported: bool,
}

impl RegistryView {
    /// How the lookup of `label` goes: it fails where no window carries the
    /// label.
    pub open spec fn lookup(self, label: Seq<char>) -> Result<(), ShellError> {
        if self.windows.contains_key(label) {
            Ok(())
        } else {
            Err(ShellError::WindowNotFound)
        }
    }

    /// How a shadow request for the window `label` goes: it fails as a
    /// lookup where no window carries the label, else as unsupported where
    /// the platform renders no shadows.
    pub open spec fn shadow_outcome(self, label: Seq<char>) -> Result<(), ShellError> {
        if !self.windows.contains_key(label) {
            Err(ShellError::WindowNotFound)
        } else if !self.shadow_supported {
            Err(ShellError::UnsupportedPlatform)
        } else {
            Ok(())
        }
    }

    /// The state once the shadow of the window `label` has been asked to be
    /// `enable`: where the request goes through, that window's shadow is
    /// overwritten; nothing else ever changes.
    pub open spec fn with_shadow(self, label: Seq<char>, enable: bool) -> RegistryView {
        if self.shadow_outcome(label) is Ok {
            RegistryView {
                windows: self.windows.insert(
                    label,
                    WindowState { shadow: enable, ..self.windows[label] },
                ),
                ..self
            }
        } else {
            self
        }
    }

    /// The state once the inspection panel of the window `label` has been
    /// asked for: where the window exists its panel is open; nothing else
    /// ever changes.
    pub open spec fn with_inspector(self, label: Seq<char>) -> RegistryView {
        if self.lookup(label) is Ok {
            RegistryView {
                windows: self.windows.insert(
                    label,
                    WindowState { inspector_open: true, ..self.windows[label] },
                ),
                ..self
            }
        } else {
            self
        }
    }

    /// How a host in this state answers `request`.
    pub open spec fn outcome(self, request: Request) -> Result<(), ShellError> {
        match request {
            Request::Resolve { label } => self.lookup(label@),
            Request::SetShadow { label, .. } => self.shadow_outcome(label@),
            Request::OpenInspector { label } => self.lookup(label@),
        }
    }

    /// The state in which `request` leaves the host. A failed request and a
    /// lookup leave it as it was.
    pub open spec fn after(self, request: Request) -> RegistryView {
        match request {
            Request::Resolve { .. } => self,
            Request::SetShadow { label, enable } => self.with_shadow(label@, enable),
            Request::OpenInspector { label } => self.with_inspector(label@),
        }
    }
}

#[derive(Debug)]
struct Window {
    label: String,
    state: WindowState,
}

/// No two windows carry the same label.
spec fn distinct_labels(windows: Seq<Window>) -> bool {
    forall|i: int, j: int|
        0 <= i < j < windows.len() ==> (#[trigger] windows[i]).label@ != (#[trigger] windows[j]).label@
}

spec fn carries(windows: Seq<Window>, label: Seq<char>, i: int) -> bool {
    0 <= i < windows.len() && windows[i].label@ == label
}

spec fn by_label(windows: Seq<Window>) -> Map<Seq<char>, WindowState> {
    Map::new(
        |label: Seq<char>| exists|i: int| carries(windows, label, i),
        |label: Seq<char>| windows[choose|i: int| carries(windows, label, i)].state,
    )
}

/// The window at `i` is the one that the map holds under its label.
proof fn lemma_by_label_at(windows: Seq<Window>, i: int)
    requires
        distinct_labels(windows),
        0 <= i < windows.len(),
    ensures
        by_label(windows).contains_key(windows[i].label@),
        by_label(windows)[windows[i].label@] == windows[i].state,
{
    let label = windows[i].label@;
    assert(carries(windows, label, i));
    let k = choose|k: int| carries(windows, label, k);
    assert(k == i);
}

/// A label that no window carries is not in the map.
proof fn lemma_by_label_absent(windows: Seq<Window>, label: Seq<char>)
    requires
        forall|i: int| 0 <= i < windows.len() ==> (#[trigger] windows[i]).label@ != label,
    ensures
        !by_label(windows).contains_key(label),
{
}

/// Opening a window under a label that is not taken adds it to the map.
proof fn lemma_by_label_push(windows: Seq<Window>, window: Window)
    requires
        distinct_labels(windows),
        !by_label(windows).contains_key(window.label@),
    ensures
        distinct_labels(windows.push(window)),
        by_label(windows.push(window)) == by_label(windows).insert(window.label@, window.state),
{
    let after = windows.push(window);
    let grown = by_label(windows).insert(window.label@, window.state);
    assert forall|i: int, j: int| 0 <= i < j < after.len() implies (#[trigger] after[i]).label@
        != (#[trigger] after[j]).label@ by {
        if j == windows.len() {
            assert(!carries(windows, window.label@, i));
        }
    }
    assert forall|label: Seq<char>| #[trigger] grown.contains_key(label) implies by_label(
        after,
    ).contains_key(label) && by_label(after)[label] == grown[label] by {
        let k = if label == window.label@ {
            windows.len() as int
        } else {
            choose|k: int| carries(windows, label, k)
        };
        assert(carries(after, label, k));
        lemma_by_label_at(after, k);
        if k < windows.len() {
            lemma_by_label_at(windows, k);
        }
    }
    assert forall|label: Seq<char>| #[trigger] by_label(after).contains_key(label) implies grown.contains_key(
        label,
    ) by {
        let k = choose|k: int| carries(after, label, k);
        if k < windows.len() {
            assert(carries(windows, label, k));
        }
    }
    assert(by_label(after) =~= grown);
}

/// Giving the window at `i` a new state overwrites its entry in the map.
proof fn lemma_by_label_update(windows: Seq<Window>, i: int, state: WindowState)
    requires
        distinct_labels(windows),
        0 <= i < windows.len(),
    ensures
        distinct_labels(windows.update(i, Window { label: windows[i].label, state })),
        by_label(windows.update(i, Window { label: windows[i].label, state })) == by_label(
            windows,
        ).insert(windows[i].label@, state),
{
    let after = windows.update(i, Window { label: windows[i].label, state });
    assert forall|a: int, b: int| 0 <= a < b < after.len() implies (#[trigger] after[a]).label@
        != (#[trigger] after[b]).label@ by {
        assert(after[a].label@ == windows[a].label@);
        assert(after[b].label@ == windows[b].label@);
    }
    assert forall|label: Seq<char>, k: int| carries(after, label, k) <==> carries(
        windows,
        label,
        k,
    ) by {
        if 0 <= k < windows.len() {
            assert(after[k].label@ == windows[k].label@);
        }
    }
    assert forall|label: Seq<char>| by_label(after).contains_key(label) implies by_label(after)[label]
        == by_label(windows).insert(windows[i].label@, state)[label] by {
        let k = choose|k: int| carries(after, label, k);
        assert(carries(windows, label, k));
        lemma_by_label_at(after, k);
        lemma_by_label_at(windows, k);
    }
    lemma_by_label_at(windows, i);
    assert(by_label(after) =~= by_label(windows).insert(windows[i].label@, state));
}

/// Closing the window at `i` takes its label out of the map.
proof fn lemma_by_label_remove(windows: Seq<Window>, i: int)
    requires
        distinct_labels(windows),
        0 <= i < windows.len(),
    ensures
        distinct_labels(windows.remove(i)),
        by_label(windows.remove(i)) == by_label(windows).remove(windows[i].label@),
{
    let after = windows.remove(i);
    let shrunk = by_label(windows).remove(windows[i].label@);
    let shift = |k: int| if k < i { k } else { k + 1 };
    assert forall|k: int| 0 <= k < after.len() implies #[trigger] after[k] == windows[shift(k)] by {}
    assert forall|a: int, b: int| 0 <= a < b < after.len() implies (#[trigger] after[a]).label@
        != (#[trigger] after[b]).label@ by {
        assert(after[a] == windows[shift(a)]);
        assert(after[b] == windows[shift(b)]);
    }
    assert forall|label: Seq<char>| #[trigger] by_label(after).contains_key(label) implies shrunk.contains_key(
        label,
    ) && by_label(after)[label] == shrunk[label] by {
        let k = choose|k: int| carries(after, label, k);
        assert(after[k] == windows[shift(k)]);
        assert(carries(windows, label, shift(k)));
        lemma_by_label_at(after, k);
        lemma_by_label_at(windows, shift(k));
    }
    assert forall|label: Seq<char>| #[trigger] shrunk.contains_key(label) implies by_label(
        after,
    ).contains_key(label) by {
        let k = choose|k: int| carries(windows, label, k);
        let moved = if k < i { k } else { k - 1 };
        assert(after[moved] == windows[shift(moved)]);
        assert(carries(after, label, moved));
    }
    assert(by_label(after) =~= shrunk);
}

/// The windows of a shell and the platform's capability, with the invariant
/// that a label resolves to at most one window.
#[derive(Debug)]
pub struct WindowRegistry {
    windows: Vec<Window>,
    shadow_supported: bool,
}

impl View for WindowRegistry {
    type V = RegistryView;

    closed spec fn view(&self) -> RegistryView {
        RegistryView {
            windows: by_label(self.windows@),
            shadow_supported: self.shadow_supported,
        }
    }
}

impl WindowRegistry {
    #[verifier::type_invariant]
    spec fn well_formed(&self) -> bool {
        distinct_labels(self.windows@)
    }

    /// A registry without windows, on a platform that renders shadows or
    /// does not.
    pub fn new(shadow_supported: bool) -> (registry: WindowRegistry)
        ensures
            registry@.windows == Map::<Seq<char>, WindowState>::empty(),
            registry@.shadow_supported == shadow_supported,
    {
        let registry = WindowRegistry { windows: Vec::new(), shadow_supported };
        assert(registry@.windows =~= Map::<Seq<char>, WindowState>::empty());
        registry
    }

    /// Whether the platform can render shadows.
    pub fn shadow_supported(&self) -> (supported: bool)
        ensures
            supported == self@.shadow_supported,
    {
        self.shadow_supported
    }

    fn find(&self, label: &str) -> (found: Option<usize>)
        ensures
            match found {
                Some(i) => carries(self.windows@, label@, i as int),
                None => !self@.windows.contains_key(label@),
            },
    {
        let key = label.to_owned();
        let mut i: usize = 0;
        while i < self.windows.len()
            invariant
                key@ == label@,
                forall|j: int| 0 <= j < i ==> (#[trigger] self.windows@[j]).label@ != label@,
            decreases self.windows.len() - i,
        {
            if self.windows[i].label == key {
                return Some(i);
            }
            i += 1;
        }
        proof {
            lemma_by_label_absent(self.windows@, label@);
        }
        None
    }

    /// Whether a window carries `label`.
    pub fn contains(&self, label: &str) -> (present: bool)
        ensures
            present == self@.windows.contains_key(label@),
    {
        proof {
            use_type_invariant(self);
        }
        match self.find(label) {
            Some(i) => {
                proof {
                    lemma_by_label_at(self.windows@, i as int);
                }
                true
            },
            None => false,
        }
    }

    /// The state of the window that carries `label`, if there is one.
    pub fn window(&self, label: &str) -> (state: Option<WindowState>)
        ensures
            state == if self@.windows.contains_key(label@) {
                Some(self@.windows[label@])
            } else {
                None
            },
    {
        proof {
            use_type_invariant(self);
        }
        match self.find(label) {
            Some(i) => {
                proof {
                    lemma_by_label_at(self.windows@, i as int);
                }
                Some(self.windows[i].state)
            },
            None => None,
        }
    }

    /// Opens a window under `label`, in the state [`WindowState::fresh`].
    /// Where a window already carries the label nothing changes and the
    /// answer is `false`: a label never resolves to two windows.
    pub fn open_window(&mut self, label: &str) -> (opened: bool)
        ensures
            opened == !old(self)@.windows.contains_key(label@),
            final(self)@ == if opened {
                RegistryView {
                    windows: old(self)@.windows.insert(label@, WindowState::fresh()),
                    ..old(self)@
                }
            } else {
                old(self)@
            },
    {
        proof {
            use_type_invariant(&*self);
        }
        match self.find(label) {
            Some(i) => {
                proof {
                    lemma_by_label_at(self.windows@, i as int);
                }
                false
            },
            None => {
                let window = Window { label: label.to_owned(), state: WindowState::fresh() };
                let mut windows = self.take_windows();
                proof {
                    lemma_by_label_push(windows@, window);
                }
                windows.push(window);
                self.windows = windows;
                true
            },
        }
    }

    /// Closes the window that carries `label`. The answer is whether there
    /// was one; the other windows stay as they are.
    pub fn close_window(&mut self, label: &str) -> (closed: bool)
        ensures
            closed == old(self)@.windows.contains_key(label@),
            final(self)@ == (RegistryView {
                windows: old(self)@.windows.remove(label@),
                ..old(self)@
            }),
    {
        proof {
            use_type_invariant(&*self);
        }
        match self.find(label) {
            Some(i) => {
                let mut windows = self.take_windows();
                proof {
                    lemma_by_label_at(windows@, i as int);
                    lemma_by_label_remove(windows@, i as int);
                }
                windows.remove(i);
                self.windows = windows;
                true
            },
            None => {
                assert(self@.windows.remove(label@) =~= self@.windows);
                false
            },
        }
    }

    /// Moves the windows out and leaves the registry empty.
    fn take_windows(&mut self) -> (windows: Vec<Window>)
        ensures
            windows@ == old(self).windows@,
            distinct_labels(windows@),
            final(self).windows@.len() == 0,
            final(self).shadow_supported == old(self).shadow_supported,
    {
        let mut taken = WindowRegistry { windows: Vec::new(), shadow_supported: self.shadow_supported };
        core::mem::swap(self, &mut taken);
        proof {
            use_type_invariant(&taken);
        }
        let WindowRegistry { windows, shadow_supported: _ } = taken;
        windows
    }

    /// Gives the window at `i` the state `state`.
    fn put_state(&mut self, i: usize, state: WindowState)
        requires
            i < old(self).windows@.len(),
        ensures
            final(self)@ == (RegistryView {
                windows: old(self)@.windows.insert(old(self).windows@[i as int].label@, state),
                ..old(self)@
            }),
    {
        let mut windows = self.take_windows();
        proof {
            lemma_by_label_update(windows@, i as int, state);
        }
        windows[i].state = state;
        self.windows = windows;
    }

    /// Renders (`enable`) or removes the shadow of the window that carries
    /// `label`, and leaves everything else as it is.
    pub fn set_shadow(&mut self, label: &str, enable: bool) -> (outcome: Result<(), ShellError>)
        ensures
            outcome == old(self)@.shadow_outcome(label@),
            final(self)@ == old(self)@.with_shadow(label@, enable),
    {
        proof {
            use_type_invariant(&*self);
        }
        match self.find(label) {
            None => Err(ShellError::WindowNotFound),
            Some(i) => {
                proof {
                    lemma_by_label_at(self.windows@, i as int);
                }
                if !self.shadow_supported {
                    return Err(ShellError::UnsupportedPlatform);
                }
                let inspector_open = self.windows[i].state.inspector_open;
                self.put_state(i, WindowState { shadow: enable, inspector_open });
                Ok(())
            },
        }
    }

    /// Opens the inspection panel on the window that carries `label`, and
    /// leaves everything else as it is.
    pub fn open_inspector(&mut self, label: &str) -> (outcome: Result<(), ShellError>)
        ensures
            outcome == old(self)@.lookup(label@),
            final(self)@ == old(self)@.with_inspector(label@),
    {
        proof {
            use_type_invariant(&*self);
        }
        match self.find(label) {
            None => Err(ShellError::WindowNotFound),
            Some(i) => {
                proof {
                    lemma_by_label_at(self.windows@, i as int);
                }
                let shadow = self.windows[i].state.shadow;
                self.put_state(i, WindowState { shadow, inspector_open: true });
                Ok(())
            },
        }
    }

    /// Looks the window that carries `label` up, and changes nothing.
    pub fn resolve(&self, label: &str) -> (outcome: Result<(), ShellError>)
        ensures
            outcome == self@.lookup(label@),
    {
        if self.contains(label) {
            Ok(())
        } else {
            Err(ShellError::WindowNotFound)
        }
    }

    /// Carries `request` out as a host does, and reports how it went.
    pub fn perform(&mut self, request: Request) -> (outcome: Result<(), ShellError>)
        ensures
            outcome == old(self)@.outcome(request),
            final(self)@ == old(self)@.after(request),
    {
        match request {
            Request::Resolve { label } => self.resolve(label),
            Request::SetShadow { label, enable } => self.set_shadow(label, enable),
            Request::OpenInspector { label } => self.open_inspector(label),
        }
    }
}

} // verus!
