//! The labels under which the shell looks its windows up.
//!
//! The bootstrap sequence and the shadow command address windows by two
//! different labels. Both are kept as they are configured; neither is taken
//! to be a misspelling of the other.

use vstd::prelude::*;

verus! {

/// Label of the window that the bootstrap sequence prepares.
pub const MAIN_WINDOW_LABEL: &'static str = "main";

/// Label of the window that the shadow command acts on.
pub const COMMAND_WINDOW_LABEL: &'static str = "MOD_SPIDER_DB_WINDOW";

/// The two labels name different windows: a registry that holds only one of
/// them serves only one of the two operations.
pub proof fn lemma_labels_differ()
    ensures
        MAIN_WINDOW_LABEL@ != COMMAND_WINDOW_LABEL@,
{
    reveal_strlit("main");
    reveal_strlit("MOD_SPIDER_DB_WINDOW");
    assert(MAIN_WINDOW_LABEL@.len() == 4);
    assert(COMMAND_WINDOW_LABEL@.len() == 20);
}

} // verus!
