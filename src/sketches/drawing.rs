//! Free-hand drawing with the mouse: strokes in random colours build up on
//! surface 1, which is shown on surface 0 with a cursor dot on top.
use vstd::prelude::*;
use crate::engine::{Point, State, MAX_SCREEN_SIZE};
use crate::input::Input;
use crate::sketch::{random_u32, Sketch};

verus! {

pub struct Drawing {
    pub last_mouse: Option<Point>,
}

impl Sketch for Drawing {
    fn new(state: &mut State) -> Drawing {
        new(state)
    }

    fn update(&mut self, state: &mut State, input: &Input, new_time: u32, old_time: u32) {
        let _ = state.set_target(1);
        match input.get_mouse_pos() {
            Some(p) => {
                let c = (random_u32() % 15) as i32 + 1;
                match self.last_mouse {
                    Some(last) => state.line(last.x, last.y, p.x, p.y, c),
                    None => state.pset(p.x, p.y, c),
                }
                self.last_mouse = Some(p);
                let _ = state.set_target(0);
                state.copy_screen(1, 0);
                state.circ_fill(p.x, p.y, 5, 9);
            },
            None => {
                self.last_mouse = None;
                state.copy_screen(1, 0);
            },
        }
    }
}

/// Clears surfaces 0 and 1 and leaves surface 1 as the target.
pub fn new(state: &mut State) -> (r: Drawing)
    requires
        old(state).wf(),
    ensures
        final(state).wf(),
        r.last_mouse is None,
        final(state).target == 1,
        final(state).offset == old(state).offset,
        final(state).width == old(state).width && final(state).height == old(state).height,
        final(state).clip_rect == old(state).clip_rect,
        final(state).transparency@ == old(state).transparency@,
        final(state).palette@ == old(state).palette@,
        final(state).palette_swap@ == old(state).palette_swap@,
        final(state).surfaces@.len() == old(state).surfaces@.len(),
        forall|i: int|
            0 <= i < old(state).surfaces@.len() ==> #[trigger] final(state).surfaces@[i] == if i < 2
                * MAX_SCREEN_SIZE {
                0
            } else {
                old(state).surfaces@[i]
            },
{
    let _ = state.set_target(0);
    state.cls(0);
    let _ = state.set_target(1);
    state.cls(0);
    Drawing { last_mouse: None }
}

} // verus!
