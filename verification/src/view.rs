//! Where the viewer looks: the offset of the view, and the drag that moves
//! it.

use vstd::prelude::*;

verus! {

/// The offset of the view, and the point at which a drag took hold of it,
/// while one is under way.
pub struct Pan {
    /// How far the view is moved from the centre, along each axis.
    pub position: (i32, i32),
    /// The pointer's place at the start of the drag, taken from where the
    /// view then was; `None` when nothing is dragged.
    pub start: Option<(i32, i32)>,
}

impl Pan {
    /// A view at the centre, with no drag under way.
    pub fn new() -> (pan: Pan)
        ensures
            pan.position == (0i32, 0i32),
            pan.start.is_none(),
    {
        Pan { position: (0, 0), start: None }
    }

    /// Brings the view back to the centre and lets go of any drag.
    pub fn reset_view(&mut self)
        ensures
            final(self).position == (0i32, 0i32),
            final(self).start.is_none(),
    {
        self.position = (0, 0);
        self.start = None;
    }

    /// Begins a drag with the pointer at `(x, y)`; the view stays where it
    /// is.
    pub fn start_position(&mut self, x: i32, y: i32)
        requires
            i32::MIN <= old(self).position.0 + x <= i32::MAX,
            i32::MIN <= old(self).position.1 + y <= i32::MAX,
        ensures
            final(self).position == old(self).position,
            final(self).start == Some(
                ((old(self).position.0 + x) as i32, (old(self).position.1 + y) as i32),
            ),
    {
        self.start = Some((self.position.0 + x, self.position.1 + y));
    }

    /// Whether the drag would take the view out of the range of `i32` with
    /// the pointer at `(x, y)`.
    pub open spec fn in_reach(self, x: i32, y: i32) -> bool {
        match self.start {
            Some(start) => {
                &&& i32::MIN <= start.0 - x <= i32::MAX
                &&& i32::MIN <= start.1 - y <= i32::MAX
            },
            None => true,
        }
    }

    /// Moves the view with the pointer, which is now at `(x, y)`: the view
    /// goes as far from where the drag began as the pointer has come. With
    /// no drag under way nothing moves.
    pub fn set_position(&mut self, x: i32, y: i32)
        requires
            old(self).in_reach(x, y),
        ensures
            final(self).start == old(self).start,
            final(self).position == match old(self).start {
                Some(start) => ((start.0 - x) as i32, (start.1 - y) as i32),
                None => old(self).position,
            },
    {
        if self.has_start_position() {
            let start = self.start.unwrap();
            self.position.0 = start.0 - x;
            self.position.1 = start.1 - y;
        }
    }

    /// Moves the view with the pointer one last time and lets go of the
    /// drag.
    pub fn end_position(&mut self, x: i32, y: i32)
        requires
            old(self).in_reach(x, y),
        ensures
            final(self).start.is_none(),
            final(self).position == match old(self).start {
                Some(start) => ((start.0 - x) as i32, (start.1 - y) as i32),
                None => old(self).position,
            },
    {
        self.set_position(x, y);
        self.start = None;
    }

    /// Whether a drag is under way.
    pub fn has_start_position(&self) -> (dragging: bool)
        ensures
            dragging == self.start.is_some(),
    {
        self.start.is_some()
    }

    /// How far the view is moved from the centre.
    pub fn get_view_position(&self) -> (position: (i32, i32))
        ensures
            position == self.position,
    {
        self.position
    }
}

} // verus!
