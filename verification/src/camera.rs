//! The camera: how far the view is zoomed and panned, and which point of the
//! grid lies under a point of the screen.

use vstd::prelude::*;
use crate::path::Point;

verus! {

/// The largest zoom factor.
pub const MAX_ZOOM: u8 = 5;

/// A direction in which the view can be panned.
#[derive(Clone, Copy, Debug, PartialEq, Eq, Structural)]
pub enum Pan {
    Up,
    Left,
    Down,
    Right,
}

/// The zoom factor and the offset of the view. A slot `(x, y)` of the grid
/// is drawn `zoom` pixels wide at the pixel `((x + offset_x) * zoom,
/// (y + offset_y) * zoom)`.
#[derive(Clone, Copy, Debug, PartialEq, Eq, Structural)]
pub struct Camera {
    zoom: u8,
    offset_x: i16,
    offset_y: i16,
}

impl Camera {
    /// The zoom factor.
    pub closed spec fn spec_zoom(&self) -> int {
        self.zoom as int
    }

    /// The horizontal offset, in slots.
    pub closed spec fn spec_offset_x(&self) -> int {
        self.offset_x as int
    }

    /// The vertical offset, in slots.
    pub closed spec fn spec_offset_y(&self) -> int {
        self.offset_y as int
    }

    /// The camera's invariant: the zoom factor lies between one and
    /// `MAX_ZOOM`.
    pub open spec fn wf(&self) -> bool {
        1 <= self.spec_zoom() <= MAX_ZOOM
    }

    /// The offset that a pan in `direction` adds to `(offset_x, offset_y)`.
    pub open spec fn shift(direction: Pan) -> (int, int) {
        match direction {
            Pan::Up => (0, 1),
            Pan::Left => (1, 0),
            Pan::Down => (0, -1),
            Pan::Right => (-1, 0),
        }
    }

    /// Whether the offsets leave room for a pan in `direction`.
    pub open spec fn spec_can_pan(&self, direction: Pan) -> bool {
        &&& i16::MIN <= self.spec_offset_x() + Self::shift(direction).0 <= i16::MAX
        &&& i16::MIN <= self.spec_offset_y() + Self::shift(direction).1 <= i16::MAX
    }

    /// A camera without zoom or offset.
    pub fn new() -> (camera: Camera)
        ensures
            camera.wf(),
            camera.spec_zoom() == 1,
            camera.spec_offset_x() == 0,
            camera.spec_offset_y() == 0,
    {
        Camera { zoom: 1, offset_x: 0, offset_y: 0 }
    }

    /// The zoom factor.
    pub fn zoom(&self) -> (zoom: u8)
        ensures
            zoom == self.spec_zoom(),
    {
        self.zoom
    }

    /// The horizontal offset, in slots.
    pub fn offset_x(&self) -> (offset: i16)
        ensures
            offset == self.spec_offset_x(),
    {
        self.offset_x
    }

    /// The vertical offset, in slots.
    pub fn offset_y(&self) -> (offset: i16)
        ensures
            offset == self.spec_offset_y(),
    {
        self.offset_y
    }

    /// Zooms in by one, but not beyond `MAX_ZOOM`.
    pub fn zoom_in(&mut self)
        requires
            old(self).wf(),
        ensures
            final(self).wf(),
            final(self).spec_zoom() == if old(self).spec_zoom() < MAX_ZOOM {
                old(self).spec_zoom() + 1
            } else {
                old(self).spec_zoom()
            },
            final(self).spec_offset_x() == old(self).spec_offset_x(),
            final(self).spec_offset_y() == old(self).spec_offset_y(),
    {
        if self.zoom < MAX_ZOOM {
            self.zoom = self.zoom + 1;
        }
    }

    /// Zooms out by one, but not below one.
    pub fn zoom_out(&mut self)
        requires
            old(self).wf(),
        ensures
            final(self).wf(),
            final(self).spec_zoom() == if old(self).spec_zoom() > 1 {
                old(self).spec_zoom() - 1
            } else {
                old(self).spec_zoom()
            },
            final(self).spec_offset_x() == old(self).spec_offset_x(),
            final(self).spec_offset_y() == old(self).spec_offset_y(),
    {
        if self.zoom > 1 {
            self.zoom = self.zoom - 1;
        }
    }

    /// Tells whether the offsets leave room for a pan in `direction`.
    pub fn can_pan(&self, direction: Pan) -> (room: bool)
        ensures
            room == self.spec_can_pan(direction),
    {
        match direction {
            Pan::Up => self.offset_y < i16::MAX,
            Pan::Left => self.offset_x < i16::MAX,
            Pan::Down => self.offset_y > i16::MIN,
            Pan::Right => self.offset_x > i16::MIN,
        }
    }

    /// Moves the view by one slot in `direction`.
    pub fn pan(&mut self, direction: Pan)
        requires
            old(self).spec_can_pan(direction),
        ensures
            final(self).spec_zoom() == old(self).spec_zoom(),
            final(self).spec_offset_x() == old(self).spec_offset_x() + Self::shift(direction).0,
            final(self).spec_offset_y() == old(self).spec_offset_y() + Self::shift(direction).1,
    {
        match direction {
            Pan::Up => {
                self.offset_y = self.offset_y + 1;
            },
            Pan::Left => {
                self.offset_x = self.offset_x + 1;
            },
            Pan::Down => {
                self.offset_y = self.offset_y - 1;
            },
            Pan::Right => {
                self.offset_x = self.offset_x - 1;
            },
        }
    }

    /// The point of the grid under the pixel `(x, y)` of the screen.
    pub fn to_grid(&self, x: u16, y: u16) -> (point: Point)
        requires
            self.wf(),
        ensures
            point.x == x as int / self.spec_zoom() - self.spec_offset_x(),
            point.y == y as int / self.spec_zoom() - self.spec_offset_y(),
    {
        let zoom: i32 = self.zoom as i32;
        Point { x: x as i32 / zoom - self.offset_x as i32, y: y as i32 / zoom - self.offset_y as i32 }
    }
}

} // verus!
