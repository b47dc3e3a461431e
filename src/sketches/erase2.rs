//! Erasing one moving pattern to reveal another: the pointer paints colour
//! 16 on a stencil, and the stencil picks between the two patterns.
use vstd::prelude::*;
use crate::engine::{Point, State, MAX_WIDTH};
use crate::input::Input;
use crate::sketch::Sketch;
use crate::sketches::erase::{block_color, block_grid, erase_stroke, prepare, prepared, GRID};

verus! {

pub struct Erase2 {
    pub last_mouse: Option<Point>,
    pub radius: i32,
    pub count: u32,
}

impl Sketch for Erase2 {
    fn new(state: &mut State) -> Erase2 {
        new(state)
    }

    fn update(&mut self, state: &mut State, input: &Input, new_time: u32, old_time: u32) {
        let _ = state.set_target(1);
        self.count = (self.count % 128 + 1) % 128;
        let offset = self.count as usize;
        block_grid(state, offset / 2, false);
        let _ = state.set_target(2);
        erase_stroke(state, &mut self.last_mouse, input.get_mouse_pos(), self.radius, 16);
        let _ = state.set_target(0);
        block_grid(state, offset / 4, true);
        state.copy_screen_with_transparency_mask(1, 0, 2);
    }
}

/// A 1024 by 1024 canvas, surfaces 0 to 2 cleared, the pattern on surface 2,
/// colour 16 transparent and colour 0 opaque.
pub fn new(state: &mut State) -> (r: Erase2)
    requires
        old(state).wf(),
    ensures
        final(state).wf(),
        r.last_mouse is None && r.radius == 10 && r.count == 0,
        prepared(final(state), old(state), MAX_WIDTH as int),
        final(state).transparency@ == old(state).transparency@.update(0, false).update(16, true),
{
    prepare(state, MAX_WIDTH);
    let ghost mid = *state;
    state.palt(0, false);
    state.palt(16, true);
    proof {
        let ghost s1 = *state;
        if old(state).offset == (Point { x: 0, y: 0 }) {
            assert forall|a: int, b: int|
                s1.on_canvas(a, b) && a < GRID * (MAX_WIDTH as int / GRID as int) && b < GRID * (MAX_WIDTH as int
                    / GRID as int) implies #[trigger] s1.px(2, a, b) == block_color(
                a / (MAX_WIDTH as int / GRID as int),
                b / (MAX_WIDTH as int / GRID as int),
                0,
                false,
            ) as u8 by {
                assert(mid.on_canvas(a, b));
                assert(mid.px(2, a, b) == s1.px(2, a, b));
            }
        }
    }
    Erase2 { last_mouse: None, radius: 10, count: 0 }
}

} // verus!
