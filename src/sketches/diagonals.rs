//! Diagonal colour bands that scroll by one colour each frame.
use vstd::prelude::*;
use crate::engine::State;
use crate::input::Input;
use crate::sketch::Sketch;

verus! {

pub struct Diagonals {
    pub count: u8,
}

impl Diagonals {
    /// Paints surface 0 so that pixel `(x, y)` holds `(x + y + shift) % 16`.
    pub fn paint(state: &mut State, shift: u8)
        requires
            old(state).wf(),
        ensures
            final(state).wf(),
            final(state).same_settings(old(state)),
            final(state).only_surface_changed(old(state), 0),
            forall|x: int, y: int|
                old(state).on_canvas(x, y) ==> #[trigger] final(state).px(0, x, y) == (x + y + shift)
                    % 16,
    {
        let ghost s0 = *state;
        if state.width == 0 {
            return;
        }
        let height = state.height;
        let width = state.width;
        let mut y: usize = 0;
        while y < height
            invariant
                state.wf(),
                s0 == *old(state),
                state.same_settings(&s0),
                state.only_surface_changed(&s0, 0),
                width == s0.width,
                height == s0.height,
                y <= height,
                forall|a: int, b: int|
                    s0.on_canvas(a, b) ==> #[trigger] state.px(0, a, b) == if b < y {
                        ((a + b + shift) % 16) as u8
                    } else {
                        s0.px(0, a, b)
                    },
            decreases height - y,
        {
            let mut x: usize = 0;
            while x < width
                invariant
                    state.wf(),
                    s0 == *old(state),
                    state.same_settings(&s0),
                    state.only_surface_changed(&s0, 0),
                    width == s0.width,
                    height == s0.height,
                    y < height,
                    x <= width,
                    forall|a: int, b: int|
                        s0.on_canvas(a, b) ==> #[trigger] state.px(0, a, b) == if b < y || (b == y
                            && a < x) {
                            ((a + b + shift) % 16) as u8
                        } else {
                            s0.px(0, a, b)
                        },
                decreases width - x,
            {
                let v = ((x + y + shift as usize) % 16) as u8;
                state.put_at(0, x as i64, y as i64, v);
                x = x + 1;
            }
            y = y + 1;
        }
    }
}

impl Sketch for Diagonals {
    fn new(state: &mut State) -> Diagonals {
        new(state)
    }

    fn update(&mut self, state: &mut State, input: &Input, new_time: u32, old_time: u32) {
        self.count = ((self.count as u16 + 1) % 16) as u8;
        Diagonals::paint(state, self.count);
    }
}

/// Clears the target and starts the bands at colour 0.
pub fn new(state: &mut State) -> (r: Diagonals)
    requires
        old(state).wf(),
    ensures
        final(state).wf(),
        r == (Diagonals { count: 0 }),
        final(state).same_settings(old(state)),
        final(state).cleared(old(state), old(state).target as int),
{
    state.cls(0);
    Diagonals { count: 0 }
}

} // verus!
