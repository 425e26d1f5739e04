//! The overlay that blocks the canvas while something is in progress.

use vstd::prelude::*;

verus! {

/// What is asked of the overlay.
#[derive(Debug)]
pub enum OverlayEvent {
    /// Take the overlay down.
    Normal,
    /// Put the overlay up, with this message.
    Overlay(String),
    /// Show this message for a while.
    Transient(String),
}

impl Clone for OverlayEvent {
    fn clone(&self) -> (copy: Self)
        ensures
            copy == *self,
    {
        match self {
            OverlayEvent::Normal => OverlayEvent::Normal,
            OverlayEvent::Overlay(message) => OverlayEvent::Overlay(message.clone()),
            OverlayEvent::Transient(message) => OverlayEvent::Transient(message.clone()),
        }
    }
}

/// Whether the canvas can be drawn on.
#[derive(Debug, Clone, Copy, Hash, PartialEq, Eq, Structural)]
pub enum OverlayState {
    /// The canvas is free.
    Normal,
    /// The overlay covers the canvas.
    Blocked,
}

impl OverlayEvent {
    /// The event puts the overlay up.
    pub open spec fn raises(self) -> bool {
        self is Overlay
    }

    /// Whether the event puts the overlay up.
    pub fn raises_overlay(&self) -> (raised: bool)
        ensures
            raised == self.raises(),
    {
        match self {
            OverlayEvent::Overlay(_) => true,
            _ => false,
        }
    }
}

impl OverlayState {
    /// The state that `event` leads to from this one: taking the overlay
    /// down frees the canvas, putting it up blocks the canvas, and a passing
    /// message changes nothing.
    pub open spec fn after(self, event: OverlayEvent) -> OverlayState {
        match event {
            OverlayEvent::Normal => OverlayState::Normal,
            OverlayEvent::Overlay(_) => OverlayState::Blocked,
            OverlayEvent::Transient(_) => self,
        }
    }

    /// The state after each of `events`, in turn.
    pub open spec fn after_all(self, events: Seq<OverlayEvent>) -> OverlayState
        decreases events.len(),
    {
        if events.len() == 0 {
            self
        } else {
            self.after_all(events.drop_last()).after(events.last())
        }
    }

    /// The state that `event` leads to from this one.
    pub fn step(self, event: &OverlayEvent) -> (next: OverlayState)
        ensures
            next == self.after(*event),
    {
        match event {
            OverlayEvent::Normal => OverlayState::Normal,
            OverlayEvent::Overlay(_) => OverlayState::Blocked,
            OverlayEvent::Transient(_) => self,
        }
    }

    /// The state after a frame's events, in the order in which they came.
    pub fn settle(self, events: &[OverlayEvent]) -> (next: OverlayState)
        ensures
            next == self.after_all(events@),
    {
        let mut state: OverlayState = self;
        let mut i: usize = 0;
        while i < events.len()
            invariant
                i <= events@.len(),
                state == self.after_all(events@.take(i as int)),
            decreases events@.len() - i,
        {
            assert(events@.take(i + 1).drop_last() =~= events@.take(i as int));
            state = state.step(&events[i]);
            i = i + 1;
        }
        assert(events@.take(i as int) =~= events@);
        state
    }
}

} // verus!
