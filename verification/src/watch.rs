//! How Hyprland's event socket is followed: what to do after each thing that happens.

use vstd::prelude::*;

use crate::state::{apply_hyprland_event, HyprlandState, StateView};

verus! {

/// What happened.
#[derive(Debug, PartialEq)]
pub enum WatchEvent {
    SocketMissing,
    SocketFound,
    Connected,
    ConnectFailed,
    Line { text: String, now: String },
    StreamEnded,
    Rested,
}

/// What to do next.
#[derive(Debug, PartialEq, Eq)]
pub enum WatchAction {
    LocateSocket,
    Connect,
    ReadLine,
    Rest { seconds: u64 },
}

/// What to do after something happened.
pub open spec fn next_action(event: WatchEvent) -> WatchAction {
    match event {
        WatchEvent::SocketMissing => WatchAction::Rest { seconds: 2 },
        WatchEvent::SocketFound => WatchAction::Connect,
        WatchEvent::Connected => WatchAction::ReadLine,
        WatchEvent::ConnectFailed => WatchAction::Rest { seconds: 1 },
        WatchEvent::Line { .. } => WatchAction::ReadLine,
        WatchEvent::StreamEnded => WatchAction::Rest { seconds: 1 },
        WatchEvent::Rested => WatchAction::LocateSocket,
    }
}

impl StateView {
    /// What is known of Hyprland after something happened.
    pub open spec fn watched(self, event: WatchEvent) -> StateView {
        match event {
            WatchEvent::Connected => StateView { event_stream_connected: true, ..self },
            WatchEvent::ConnectFailed => StateView { event_stream_connected: false, ..self },
            WatchEvent::StreamEnded => StateView { event_stream_connected: false, ..self },
            WatchEvent::Line { text, now } => self.after_event(text@, now@),
            _ => self,
        }
    }
}

/// Takes in what happened, and tells what to do next.
pub fn watch_step(state: &mut HyprlandState, event: WatchEvent) -> (action: WatchAction)
    ensures
        action == next_action(event),
        final(state)@ == old(state)@.watched(event),
{
    match event {
        WatchEvent::SocketMissing => WatchAction::Rest { seconds: 2 },
        WatchEvent::SocketFound => WatchAction::Connect,
        WatchEvent::Connected => {
            state.event_stream_connected = true;
            WatchAction::ReadLine
        },
        WatchEvent::ConnectFailed => {
            state.event_stream_connected = false;
            WatchAction::Rest { seconds: 1 }
        },
        WatchEvent::Line { text, now } => {
            apply_hyprland_event(state, text.as_str(), now);
            WatchAction::ReadLine
        },
        WatchEvent::StreamEnded => {
            state.event_stream_connected = false;
            WatchAction::Rest { seconds: 1 }
        },
        WatchEvent::Rested => WatchAction::LocateSocket,
    }
}

/// Whether something can happen when that is what was to be done.
pub open spec fn can_follow(action: WatchAction, event: WatchEvent) -> bool {
    match action {
        WatchAction::LocateSocket => event is SocketMissing || event is SocketFound,
        WatchAction::Connect => event is Connected || event is ConnectFailed,
        WatchAction::ReadLine => event is Line || event is StreamEnded,
        WatchAction::Rest { .. } => event is Rested,
    }
}

/// The state says that the event stream is connected exactly while lines are read from it:
/// whatever can happen keeps it so.
pub proof fn law_connected_while_reading(
    state: StateView,
    action: WatchAction,
    event: WatchEvent,
)
    requires
        state.event_stream_connected <==> action is ReadLine,
        can_follow(action, event),
    ensures
        state.watched(event).event_stream_connected <==> next_action(event) is ReadLine,
{
}

} // verus!
