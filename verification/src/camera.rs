//! Orthographic camera state.
//!
//! A camera is a centre position and a signed extent pair, all in fixed-point
//! milli-units. The renderer derives its view matrix from `view_offset` (the
//! negated centre) and its projection matrix from `ortho_bounds` (the
//! left/right/bottom/top planes); the view-projection composite is the
//! projection applied after the view. A negative extent flips the matching
//! axis, which is how the UI camera maps pixel coordinates top-down.

use vstd::prelude::*;
use crate::fixed::Vec2;

verus! {

/// Bound on camera fields, in milli-units, so that plane arithmetic
/// stays within `i64`.
pub const CAM_LIMIT: i64 = 1_000_000_000_000_000;

/// Signed halving that matches Rust's truncating division.
pub open spec fn half(v: int) -> int {
    if v >= 0 {
        v / 2
    } else {
        -((-v) / 2)
    }
}

/// A 2D orthographic camera in fixed-point milli-units.
#[derive(Clone, Copy, PartialEq, Eq, Structural, Debug)]
pub struct Camera2d {
    pub width: i64,
    pub height: i64,
    pub position: Vec2,
}

/// The four clipping planes of an orthographic projection, in milli-units.
#[derive(Clone, Copy, PartialEq, Eq, Structural, Debug)]
pub struct OrthoBounds {
    pub left: i64,
    pub right: i64,
    pub bottom: i64,
    pub top: i64,
}

impl Camera2d {
    /// All fields within `CAM_LIMIT`, so plane arithmetic cannot overflow.
    pub open spec fn wf(self) -> bool {
        &&& -CAM_LIMIT <= self.width <= CAM_LIMIT
        &&& -CAM_LIMIT <= self.height <= CAM_LIMIT
        &&& -CAM_LIMIT <= self.position.x <= CAM_LIMIT
        &&& -CAM_LIMIT <= self.position.y <= CAM_LIMIT
    }

    pub fn new(width: i64, height: i64, position: Vec2) -> (r: Camera2d)
        ensures
            r.width == width && r.height == height && r.position == position,
    {
        Camera2d { width, height, position }
    }

    /// The translation the view transform applies: the negated centre.
    pub fn view_offset(&self) -> (r: Vec2)
        requires
            self.wf(),
        ensures
            r.x == -self.position.x && r.y == -self.position.y,
    {
        Vec2 { x: -self.position.x, y: -self.position.y }
    }

    /// The orthographic clipping planes: the centre plus and minus half of
    /// each signed extent.
    pub fn ortho_bounds(&self) -> (r: OrthoBounds)
        requires
            self.wf(),
        ensures
            r.left == self.position.x - half(self.width as int),
            r.right == self.position.x + half(self.width as int),
            r.bottom == self.position.y - half(self.height as int),
            r.top == self.position.y + half(self.height as int),
    {
        let hx: i64 = if self.width >= 0 {
            self.width / 2
        } else {
            -((-self.width) / 2)
        };
        let hy: i64 = if self.height >= 0 {
            self.height / 2
        } else {
            -((-self.height) / 2)
        };
        OrthoBounds {
            left: self.position.x - hx,
            right: self.position.x + hx,
            bottom: self.position.y - hy,
            top: self.position.y + hy,
        }
    }
}

} // verus!
