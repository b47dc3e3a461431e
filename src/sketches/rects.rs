//! One random rectangle outline a frame.
use vstd::prelude::*;
use crate::engine::State;
use crate::input::Input;
use crate::sketch::Sketch;
use crate::sketches::lines::random_below;

verus! {

pub struct Rects {}

impl Sketch for Rects {
    fn new(state: &mut State) -> Rects {
        new(state)
    }

    fn update(&mut self, state: &mut State, input: &Input, new_time: u32, old_time: u32) {
        let width = state.width;
        let height = state.height;
        if width == 0 || height == 0 {
            return;
        }
        let x0 = random_below(width);
        let x1 = random_below(width);
        let y0 = random_below(height);
        let y1 = random_below(height);
        let c = random_below(16);
        state.rect(x0, y0, x1, y1, c);
    }
}

/// Clears the target.
pub fn new(state: &mut State) -> (r: Rects)
    requires
        old(state).wf(),
    ensures
        final(state).wf(),
        r == (Rects {}),
        final(state).same_settings(old(state)),
        final(state).cleared(old(state), old(state).target as int),
{
    state.cls(0);
    Rects {}
}

} // verus!
