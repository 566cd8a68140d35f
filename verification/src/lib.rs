//! Verified control logic of a single-window desktop shell: a bootstrap
//! sequence and a command that switches a window's drop shadow on or off.
//!
//! The shell owns no window. A [`sequencer::Sequencer`] decides which
//! request is due and when an operation is over; a host carries the requests
//! out. [`registry::WindowRegistry`] is such a host, held in memory, and
//! [`shell`] proves what each operation comes to on it. [`laws`] states what
//! follows for every registry and every host.

pub mod error;
pub mod label;
pub mod laws;
pub mod registry;
pub mod sequencer;
pub mod shell;
