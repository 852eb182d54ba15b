//! The events that watchers report to the daemon.

use vstd::prelude::*;
use crate::dbus::Host;

verus! {

/// What a watcher observed.
#[derive(Clone, Copy, Debug, PartialEq, Eq, Structural)]
pub enum EventType {
    /// A target came into focus.
    FocusChange,
    /// Nothing that the watcher governs is in focus any more.
    FocusLost,
    /// The user is away from the keyboard. Reserved: it has no effect yet.
    AFK,
}

/// A message from a watcher.
#[derive(Debug, PartialEq, Eq)]
pub struct Event {
    pub event_type: EventType,
    /// The watcher that sent the event.
    pub source: Host,
    /// The name under which the event is stored and displayed; empty when
    /// focus was lost.
    pub display_name: String,
    /// Source-specific data that is handed back to the watcher when the
    /// target has to be closed. For the browser watcher it is a JSON-encoded
    /// tab identifier.
    pub metadata: String,
}

/// The mathematical value of an [`Event`].
pub struct EventView {
    pub event_type: EventType,
    pub source: Host,
    pub display_name: Seq<char>,
    pub metadata: Seq<char>,
}

impl View for Event {
    type V = EventView;

    open spec fn view(&self) -> EventView {
        EventView {
            event_type: self.event_type,
            source: self.source,
            display_name: self.display_name@,
            metadata: self.metadata@,
        }
    }
}

impl Clone for Event {
    fn clone(&self) -> (copy: Self)
        ensures
            copy == *self,
    {
        Event {
            event_type: self.event_type,
            source: self.source,
            display_name: self.display_name.clone(),
            metadata: self.metadata.clone(),
        }
    }
}

impl Event {
    /// Whether two events hold the same: kind, source, display name and
    /// metadata.
    pub fn same_as(&self, other: &Event) -> (same: bool)
        ensures
            same == (self@ == other@),
    {
        self.event_type == other.event_type && self.source == other.source && self.display_name
            == other.display_name && self.metadata == other.metadata
    }
}

} // verus!
