//! Every pixel a random colour of the first sixteen, each frame.
use vstd::prelude::*;
use crate::engine::State;
use crate::input::Input;
use crate::sketch::{random_u32, Sketch};

verus! {

pub struct RandStatic {}

impl RandStatic {
    /// Gives every canvas pixel of surface 0 a random colour below 16.
    pub fn paint(state: &mut State)
        requires
            old(state).wf(),
        ensures
            final(state).wf(),
            final(state).same_settings(old(state)),
            final(state).only_surface_changed(old(state), 0),
            forall|x: int, y: int| old(state).on_canvas(x, y) ==> #[trigger] final(state).px(0, x, y) < 16,
    {
        let ghost s0 = *state;
        if state.width == 0 {
            return;
        }
        let height = state.height;
        let width = state.width;
        let mut y: usize = 0;
        while y < height
            invariant
                state.wf(),
                s0 == *old(state),
                state.same_settings(&s0),
                state.only_surface_changed(&s0, 0),
                width == s0.width,
                height == s0.height,
                y <= height,
                forall|a: int, b: int|
                    s0.on_canvas(a, b) && b < y ==> #[trigger] state.px(0, a, b) < 16,
            decreases height - y,
        {
            let mut x: usize = 0;
            while x < width
                invariant
                    state.wf(),
                    s0 == *old(state),
                    state.same_settings(&s0),
                    state.only_surface_changed(&s0, 0),
                    width == s0.width,
                    height == s0.height,
                    y < height,
                    x <= width,
                    forall|a: int, b: int|
                        s0.on_canvas(a, b) && (b < y || (b == y && a < x)) ==> #[trigger] state.px(
                            0,
                            a,
                            b,
                        ) < 16,
                decreases width - x,
            {
                let v = (random_u32() % 16) as u8;
                state.put_at(0, x as i64, y as i64, v);
                x = x + 1;
            }
            y = y + 1;
        }
    }
}

impl Sketch for RandStatic {
    fn new(state: &mut State) -> RandStatic {
        new(state)
    }

    fn update(&mut self, state: &mut State, input: &Input, new_time: u32, old_time: u32) {
        RandStatic::paint(state);
    }
}

/// Clears the target.
pub fn new(state: &mut State) -> (r: RandStatic)
    requires
        old(state).wf(),
    ensures
        final(state).wf(),
        r == (RandStatic {}),
        final(state).same_settings(old(state)),
        final(state).cleared(old(state), old(state).target as int),
{
    state.cls(0);
    RandStatic {}
}

} // verus!
