use vstd::prelude::*;

verus! {

/// The change signals sent to the user interface: a command's record, or its
/// log, has changed.
#[derive(Debug, Clone, Copy, PartialEq, Eq, Structural)]
pub enum AppEventPayload {
    CommandUpdateEvent(i32),
    CommandLogUpdateEvent(i32),
}

/// The channel on which change signals are sent.
pub const EVENT_CHANNEL: &'static str = "change_event";

} // verus!
