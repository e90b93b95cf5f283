//! Pixel geometry: points, sizes and rectangles as plain integers, and the
//! positions that the drawing library derives from them.

use vstd::prelude::*;

verus! {

/// A pixel position. `x` grows to the right, `y` downwards.
#[derive(Clone, Copy, Debug, PartialEq, Eq, Structural)]
pub struct Point {
    pub x: i32,
    pub y: i32,
}

/// A width and a height in pixels.
#[derive(Clone, Copy, Debug, PartialEq, Eq, Structural)]
pub struct Size {
    pub width: u32,
    pub height: u32,
}

/// A rectangle given by its top-left corner and its size.
#[derive(Clone, Copy, Debug, PartialEq, Eq, Structural)]
pub struct Rect {
    pub top_left: Point,
    pub size: Size,
}

/// How far the centre pixel of a side of `side` pixels lies from its first
/// pixel: half of one less than the side, rounded down.
pub open spec fn half_extent(side: u32) -> int {
    if side == 0 {
        0
    } else {
        (side - 1) / 2
    }
}

/// How far the last pixel of a side of `side` pixels lies from its first
/// pixel. A side of no pixels counts as one pixel.
pub open spec fn full_extent(side: u32) -> int {
    if side == 0 {
        0
    } else {
        side - 1
    }
}

impl Rect {
    /// The column of the centre pixel.
    pub open spec fn center_x(self) -> int {
        self.top_left.x + half_extent(self.size.width)
    }

    /// The row of the centre pixel.
    pub open spec fn center_y(self) -> int {
        self.top_left.y + half_extent(self.size.height)
    }

    /// The column of the rightmost pixel.
    pub open spec fn right(self) -> int {
        self.top_left.x + full_extent(self.size.width)
    }

    /// Whether the centre is a pixel position.
    pub open spec fn has_center(self) -> bool {
        self.center_x() <= i32::MAX && self.center_y() <= i32::MAX
    }

    /// Whether the top-right corner is a pixel position that the drawing
    /// library can work out: it measures both sides as signed numbers on
    /// the way.
    pub open spec fn has_top_right(self) -> bool {
        self.size.width <= i32::MAX && self.size.height <= i32::MAX && self.right() <= i32::MAX
    }

    /// Whether the drawing library can tell the centre.
    pub fn check_center(&self) -> (ok: bool)
        ensures
            ok == self.has_center(),
    {
        let dx: i64 = if self.size.width == 0 {
            0
        } else {
            ((self.size.width - 1) / 2) as i64
        };
        let dy: i64 = if self.size.height == 0 {
            0
        } else {
            ((self.size.height - 1) / 2) as i64
        };
        self.top_left.x as i64 + dx <= i32::MAX as i64 && self.top_left.y as i64 + dy
            <= i32::MAX as i64
    }

    /// Whether the drawing library can tell the top-right corner.
    pub fn check_top_right(&self) -> (ok: bool)
        ensures
            ok == self.has_top_right(),
    {
        let dx: i64 = if self.size.width == 0 {
            0
        } else {
            (self.size.width - 1) as i64
        };
        self.size.width <= i32::MAX as u32 && self.size.height <= i32::MAX as u32
            && self.top_left.x as i64 + dx <= i32::MAX as i64
    }

    /// The centre of the rectangle.
    ///
    /// Calls `embedded_graphics::primitives::Rectangle::center`, which adds
    /// to the top-left corner half of one less than each side (nothing for
    /// a side of zero). The sum is taken in 32 bits, so the centre has to
    /// be a pixel position.
    #[verifier::external_body]
    pub(crate) fn center(&self) -> (c: Point)
        requires
            self.has_center(),
        ensures
            c.x == self.center_x(),
            c.y == self.center_y(),
    {
        let point = embedded_graphics::geometry::Point::new(self.top_left.x, self.top_left.y);
        let size = embedded_graphics::geometry::Size::new(self.size.width, self.size.height);
        let center = embedded_graphics::primitives::Rectangle::new(point, size).center();
        Point { x: center.x, y: center.y }
    }

    /// The top-right corner of the rectangle.
    ///
    /// Calls `embedded_graphics::primitives::Rectangle::anchor_point` with
    /// `AnchorPoint::TopRight`, which keeps the row of the top-left corner
    /// and moves its column right by one less than the width, a width of
    /// zero counting as one. It converts both sides to signed 32-bit numbers
    /// first and adds in 32 bits.
    #[verifier::external_body]
    pub(crate) fn top_right(&self) -> (p: Point)
        requires
            self.has_top_right(),
        ensures
            p.x == self.right(),
            p.y == self.top_left.y,
    {
        let point = embedded_graphics::geometry::Point::new(self.top_left.x, self.top_left.y);
        let size = embedded_graphics::geometry::Size::new(self.size.width, self.size.height);
        let corner = embedded_graphics::primitives::Rectangle::new(point, size).anchor_point(
            embedded_graphics::geometry::AnchorPoint::TopRight,
        );
        Point { x: corner.x, y: corner.y }
    }
}

/// A circle given by the top-left corner of its bounding square and its
/// diameter: where an arc lies, whatever its angles.
#[derive(Clone, Copy, Debug, PartialEq, Eq, Structural)]
pub struct Circle {
    pub top_left: Point,
    pub diameter: u32,
}

impl Circle {
    /// Whether a circle of this diameter round `center` has a top-left
    /// corner that is a pixel position.
    pub open spec fn fits_around(center: Point, diameter: u32) -> bool {
        center.x - half_extent(diameter) >= i32::MIN && center.y - half_extent(diameter)
            >= i32::MIN
    }

    /// Whether the centre is a pixel position.
    pub open spec fn has_center(self) -> bool {
        self.top_left.x + half_extent(self.diameter) <= i32::MAX && self.top_left.y + half_extent(
            self.diameter,
        ) <= i32::MAX
    }

    /// The circle of an arc drawn round `center`.
    ///
    /// Calls `embedded_graphics::primitives::Arc::with_center` and reads
    /// where it put the arc: the top-left corner lies left of and above the
    /// centre by half of one less than the diameter (by nothing for a
    /// diameter of zero), subtracted in 32 bits. The angles take no part in
    /// this, so the call is made with zero angles.
    #[verifier::external_body]
    pub(crate) fn around(center: Point, diameter: u32) -> (c: Circle)
        requires
            Circle::fits_around(center, diameter),
        ensures
            c.top_left.x == center.x - half_extent(diameter),
            c.top_left.y == center.y - half_extent(diameter),
            c.diameter == diameter,
    {
        let arc = embedded_graphics::primitives::Arc::with_center(
            embedded_graphics::geometry::Point::new(center.x, center.y),
            diameter,
            embedded_graphics::geometry::Angle::zero(),
            embedded_graphics::geometry::Angle::zero(),
        );
        Circle { top_left: Point { x: arc.top_left.x, y: arc.top_left.y }, diameter: arc.diameter }
    }

    /// The centre of an arc on this circle.
    ///
    /// Calls `embedded_graphics::primitives::Arc::center`, which is the
    /// centre of the arc's bounding square: the top-left corner moved right
    /// and down by half of one less than the diameter, added in 32 bits.
    /// The angles take no part in this, so the arc is made with zero angles.
    #[verifier::external_body]
    pub(crate) fn center(&self) -> (c: Point)
        requires
            self.has_center(),
        ensures
            c.x == self.top_left.x + half_extent(self.diameter),
            c.y == self.top_left.y + half_extent(self.diameter),
    {
        let center = embedded_graphics::primitives::Arc::new(
            embedded_graphics::geometry::Point::new(self.top_left.x, self.top_left.y),
            self.diameter,
            embedded_graphics::geometry::Angle::zero(),
            embedded_graphics::geometry::Angle::zero(),
        ).center();
        Point { x: center.x, y: center.y }
    }
}

} // verus!
