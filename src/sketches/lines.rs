//! Two hundred random segments a frame on the largest canvas.
use vstd::prelude::*;
use crate::engine::{ClipRect, State, MAX_HEIGHT, MAX_WIDTH};
use crate::input::Input;
use crate::sketch::{random_u32, Sketch};

verus! {

pub struct Lines {}

/// A random value below `n`, which must be positive.
pub(crate) fn random_below(n: usize) -> (r: i32)
    requires
        0 < n <= 0x7fff_ffff,
    ensures
        0 <= r < n,
{
    (random_u32() % (n as u32)) as i32
}

impl Sketch for Lines {
    fn new(state: &mut State) -> Lines {
        new(state)
    }

    fn update(&mut self, state: &mut State, input: &Input, new_time: u32, old_time: u32) {
        let width = state.width;
        let height = state.height;
        if width == 0 || height == 0 {
            return;
        }
        let mut k: usize = 0;
        while k < 200
            invariant
                state.wf(),
                width == state.width,
                height == state.height,
                0 < width <= crate::engine::MAX_SCREEN_SIZE,
                0 < height <= crate::engine::MAX_SCREEN_SIZE,
            decreases 200 - k,
        {
            let x0 = random_below(width);
            let x1 = random_below(width);
            let y0 = random_below(height);
            let y1 = random_below(height);
            let c = random_below(16);
            state.line(x0, y0, x1, y1, c);
            k = k + 1;
        }
    }
}

/// Makes the canvas as large as a surface allows, 1024 by 1024, and clears
/// the target.
pub fn new(state: &mut State) -> (r: Lines)
    requires
        old(state).wf(),
    ensures
        final(state).wf(),
        final(state).width == MAX_WIDTH && final(state).height == MAX_HEIGHT,
        final(state).clip_rect == (ClipRect { l: 0, t: 0, r: MAX_WIDTH as i64, b: MAX_HEIGHT as i64 }),
        final(state).offset == old(state).offset && final(state).target == old(state).target,
        final(state).transparency@ == old(state).transparency@,
        final(state).palette@ == old(state).palette@,
        final(state).palette_swap@ == old(state).palette_swap@,
        final(state).cleared(old(state), old(state).target as int),
{
    let _ = state.set_dimensions(MAX_WIDTH, MAX_HEIGHT);
    state.cls(0);
    Lines {}
}

} // verus!
