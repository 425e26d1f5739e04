//! Which pointer events start, extend and end a stroke.
//!
//! One drag is followed at a time, by the mouse or by one touch. The tracker
//! keeps viewport positions as it gets them; turning them into drawing
//! coordinates is the host's, and where the host cannot, it says so.

use crate::store::StrokeSource;
use vstd::prelude::*;

verus! {

/// What a pointer event means for the strokes.
#[derive(Clone, Copy, Debug, PartialEq, Eq, Structural)]
pub enum Gesture {
    /// Nothing.
    Idle,
    /// A stroke of this source begins.
    Begin(StrokeSource),
    /// The open stroke of this source takes the pointer's position.
    Extend(StrokeSource),
    /// The open stroke of this source ends.
    End(StrokeSource),
}

/// The pointer as the events have left it.
pub struct PointerTracker<V> {
    /// Where the pointer was last seen, once it has been seen.
    pub position: Option<V>,
    /// Where the drag in progress began, while there is one.
    pub drag_start: Option<V>,
    /// The touch that is followed, while there is one.
    pub touch: Option<u64>,
}

impl<V: Copy> PointerTracker<V> {
    /// A tracker that has seen nothing yet.
    pub fn new() -> (tracker: Self)
        ensures
            tracker.position.is_none(),
            tracker.drag_start.is_none(),
            tracker.touch.is_none(),
    {
        PointerTracker { position: None, drag_start: None, touch: None }
    }

    /// The cursor moved to `at`. While a drag is in progress the mouse's
    /// stroke takes the position.
    pub fn cursor_moved(&mut self, at: V) -> (gesture: Gesture)
        ensures
            final(self).position == Some(at),
            final(self).drag_start == old(self).drag_start,
            final(self).touch == old(self).touch,
            gesture == if old(self).drag_start.is_some() {
                Gesture::Extend(StrokeSource::Mouse)
            } else {
                Gesture::Idle
            },
    {
        self.position = Some(at);
        if self.drag_start.is_some() {
            Gesture::Extend(StrokeSource::Mouse)
        } else {
            Gesture::Idle
        }
    }

    /// The touch `id` was seen at `at`. Only the touch that is followed
    /// counts: it moves the pointer, and while a drag is in progress its
    /// stroke takes the position.
    pub fn touch_moved(&mut self, id: u64, at: V) -> (gesture: Gesture)
        ensures
            final(self).drag_start == old(self).drag_start,
            final(self).touch == old(self).touch,
            final(self).position == if old(self).touch == Some(id) {
                Some(at)
            } else {
                old(self).position
            },
            gesture == if old(self).touch == Some(id) && old(self).drag_start.is_some() {
                Gesture::Extend(StrokeSource::Touch(id))
            } else {
                Gesture::Idle
            },
    {
        match self.touch {
            Some(followed) => {
                if followed == id {
                    self.position = Some(at);
                    if self.drag_start.is_some() {
                        return Gesture::Extend(StrokeSource::Touch(id));
                    }
                }
                Gesture::Idle
            },
            None => Gesture::Idle,
        }
    }

    /// The left mouse button went down. Where the pointer has been seen and
    /// no drag is in progress, a drag begins where the pointer is, and with
    /// it a stroke of the mouse.
    pub fn mouse_pressed(&mut self) -> (gesture: Gesture)
        ensures
            final(self).position == old(self).position,
            final(self).touch == old(self).touch,
            if old(self).position.is_some() && old(self).drag_start.is_none() {
                &&& gesture == Gesture::Begin(StrokeSource::Mouse)
                &&& final(self).drag_start == old(self).position
            } else {
                &&& gesture == Gesture::Idle
                &&& final(self).drag_start == old(self).drag_start
            },
    {
        if self.position.is_some() && self.drag_start.is_none() {
            self.drag_start = self.position;
            Gesture::Begin(StrokeSource::Mouse)
        } else {
            Gesture::Idle
        }
    }

    /// The left mouse button came up. `convertible` says whether the host
    /// can turn both the start of the drag and the pointer's position into
    /// drawing coordinates. Where the pointer has been seen, a drag is in
    /// progress and the host can, the drag ends and with it the mouse's
    /// stroke; else nothing changes.
    pub fn mouse_released(&mut self, convertible: bool) -> (gesture: Gesture)
        ensures
            final(self).position == old(self).position,
            final(self).touch == old(self).touch,
            if old(self).position.is_some() && old(self).drag_start.is_some() && convertible {
                &&& gesture == Gesture::End(StrokeSource::Mouse)
                &&& final(self).drag_start.is_none()
            } else {
                &&& gesture == Gesture::Idle
                &&& final(self).drag_start == old(self).drag_start
            },
    {
        if self.position.is_some() && self.drag_start.is_some() && convertible {
            self.drag_start = None;
            Gesture::End(StrokeSource::Mouse)
        } else {
            Gesture::Idle
        }
    }

    /// The touch `id` began at `at`. Where no touch is followed yet, this
    /// one is from now on: a drag begins at `at`, and with it a stroke of
    /// the touch.
    pub fn touch_started(&mut self, id: u64, at: V) -> (gesture: Gesture)
        ensures
            final(self).position == old(self).position,
            if old(self).touch.is_none() {
                &&& gesture == Gesture::Begin(StrokeSource::Touch(id))
                &&& final(self).drag_start == Some(at)
                &&& final(self).touch == Some(id)
            } else {
                &&& gesture == Gesture::Idle
                &&& final(self).drag_start == old(self).drag_start
                &&& final(self).touch == old(self).touch
            },
    {
        if self.touch.is_none() {
            self.drag_start = Some(at);
            self.touch = Some(id);
            Gesture::Begin(StrokeSource::Touch(id))
        } else {
            Gesture::Idle
        }
    }

    /// A touch ended. `convertible` says whether the host can turn both the
    /// start of the drag and the touch's last position into drawing
    /// coordinates. Where a drag is in progress and the host can, the drag
    /// ends and no touch is followed any more; the followed touch's stroke,
    /// if a touch was followed, ends with it. Else nothing changes.
    pub fn touch_ended(&mut self, convertible: bool) -> (gesture: Gesture)
        ensures
            final(self).position == old(self).position,
            if old(self).drag_start.is_some() && convertible {
                &&& final(self).drag_start.is_none()
                &&& final(self).touch.is_none()
                &&& gesture == match old(self).touch {
                    Some(id) => Gesture::End(StrokeSource::Touch(id)),
                    None => Gesture::Idle,
                }
            } else {
                &&& gesture == Gesture::Idle
                &&& final(self).drag_start == old(self).drag_start
                &&& final(self).touch == old(self).touch
            },
    {
        if self.drag_start.is_some() && convertible {
            let followed: Option<u64> = self.touch;
            self.drag_start = None;
            self.touch = None;
            match followed {
                Some(id) => Gesture::End(StrokeSource::Touch(id)),
                None => Gesture::Idle,
            }
        } else {
            Gesture::Idle
        }
    }
}

} // verus!
