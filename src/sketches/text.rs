//! A paragraph printed with a drop shadow that bobs every sixteen frames.
use vstd::prelude::*;
use crate::engine::{ClipRect, State};
use crate::input::Input;
use crate::sketch::Sketch;

verus! {

pub const TEXT_WIDTH: usize = 480;
pub const TEXT_HEIGHT: usize = 272;

pub struct Text {
    pub count: i32,
    /// Glyph rows, eight per character from 33 to 127.
    pub font: Vec<u8>,
}

impl Text {
    /// The text sketch drawing with the given glyph table.
    pub fn with_font(state: &mut State, font: Vec<u8>) -> (r: Text)
        requires
            old(state).wf(),
        ensures
            final(state).wf(),
            r.count == 0,
            r.font@ == font@,
            final(state).width == TEXT_WIDTH && final(state).height == TEXT_HEIGHT,
            final(state).clip_rect == (ClipRect { l: 0, t: 0, r: TEXT_WIDTH as i64, b: TEXT_HEIGHT as i64 }),
            final(state).offset == old(state).offset && final(state).target == old(state).target,
            final(state).transparency@ == old(state).transparency@,
            final(state).palette@ == old(state).palette@,
            final(state).palette_swap@ == old(state).palette_swap@,
            final(state).cleared(old(state), old(state).target as int),
    {
        let _ = state.set_dimensions(TEXT_WIDTH, TEXT_HEIGHT);
        state.cls(0);
        Text { count: 0, font }
    }
}

impl Sketch for Text {
    fn new(state: &mut State) -> Text {
        new(state)
    }

    fn update(&mut self, state: &mut State, input: &Input, new_time: u32, old_time: u32) {
        self.count = (self.count % 64 + 1) % 64;
        if self.count % 16 == 0 {
            state.cls(0);
            let even = self.count % 32 == 0;
            let message = "Indexed colour, scan conversion\nand a bitmap font.";
            state.prnt(self.font.as_slice(), message, 1, if even { 2 } else { 1 }, 3, if even { 3 } else { 4 }, 7);
            state.prnt(self.font.as_slice(), message, 2, if even { 3 } else { 2 }, 1, 1, 0);
        }
    }
}

/// Sets a 480 by 272 canvas, clears the target, and starts with no glyphs,
/// so that characters advance the cursor blank; `with_font` gives it a
/// glyph table.
pub fn new(state: &mut State) -> (r: Text)
    requires
        old(state).wf(),
    ensures
        final(state).wf(),
        r.count == 0,
        r.font@.len() == 0,
        final(state).width == TEXT_WIDTH && final(state).height == TEXT_HEIGHT,
        final(state).clip_rect == (ClipRect { l: 0, t: 0, r: TEXT_WIDTH as i64, b: TEXT_HEIGHT as i64 }),
        final(state).offset == old(state).offset && final(state).target == old(state).target,
        final(state).transparency@ == old(state).transparency@,
        final(state).palette@ == old(state).palette@,
        final(state).palette_swap@ == old(state).palette_swap@,
        final(state).cleared(old(state), old(state).target as int),
{
    Text::with_font(state, Vec::new())
}

} // verus!
