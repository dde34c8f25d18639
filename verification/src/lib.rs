//! Verified core of an application-launcher panel: the desktop-entry model,
//! the group filter engine that decides which entries each group shows, and
//! the drag-and-drop source and destination state machines that move entries
//! between groups.
//!
//! Everything here is pure logic over plain values.  Reading desktop files,
//! talking to the compositor, persisting the group list and spawning
//! processes belong to the surrounding application, which feeds events in
//! and carries actions out.

pub mod debounce;
pub mod dnd_dest;
pub mod dnd_source;
pub mod entry;
pub mod group;
pub mod launch;
pub mod payload;
pub mod text;

use vstd::prelude::*;

verus! {

/// Event delivered over the session bus asking the panel to toggle
/// its visibility.
#[derive(Debug, Clone, Copy, PartialEq, Eq, Structural)]
pub enum DbusEvent {
    Toggle,
}

} // verus!
