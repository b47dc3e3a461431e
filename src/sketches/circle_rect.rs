//! Nested rectangle outlines between the canvas centre and a point that
//! orbits it, inside a circle.
use vstd::prelude::*;
use crate::engine::State;
use crate::geometry::rect_swap;

verus! {

pub struct CircleRect {}

impl CircleRect {
    /// Clears surface 0.
    pub fn new(state: &mut State) -> (r: CircleRect)
        requires
            old(state).wf(),
        ensures
            final(state).wf(),
    {
        state.cls(0);
        CircleRect {}
    }

    /// Draws one frame with the orbiting point at `(x, y)`: the target is
    /// cleared, rectangles between the centre and the point are outlined,
    /// each one pixel inside the last, in colours 1 to 15 in turn, and the
    /// circle of radius `width / 2 - 1` about the centre is drawn in colour 9.
    pub fn draw(&self, state: &mut State, x: i32, y: i32)
        requires
            old(state).wf(),
        ensures
            final(state).wf(),
    {
        state.cls(0);
        if state.width == 0 || state.height == 0 {
            return;
        }
        let cx = (state.width / 2) as i32;
        let cy = (state.height / 2) as i32;
        let (x0, y0, x1, y1) = rect_swap(cx as i64, cy as i64, x as i64, y as i64);
        let dx = x1 - x0;
        let dy = y1 - y0;
        let min_diff = (if dx < dy { dx } else { dy }) / 2 + 1;
        let mut i: i64 = 0;
        while i < min_diff
            invariant
                state.wf(),
                0 <= dx <= 0x1_0000_0000,
                0 <= dy <= 0x1_0000_0000,
                min_diff == (if dx < dy { dx } else { dy }) / 2 + 1,
                x0 + dx == x1 && y0 + dy == y1,
                -0x8000_0000 <= x0 && x1 <= 0x7fff_ffff,
                -0x8000_0000 <= y0 && y1 <= 0x7fff_ffff,
                0 <= i <= min_diff,
            decreases min_diff - i,
        {
            state.rect(
                (x0 + i) as i32,
                (y0 + i) as i32,
                (x1 - i) as i32,
                (y1 - i) as i32,
                (i % 15 + 1) as i32,
            );
            i = i + 1;
        }
        state.circ(cx, cy, cx - 1, 9);
    }
}

} // verus!
