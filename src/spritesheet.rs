//! The sprite-sheet layout: a little-endian `u16` width and height, 256
//! palette triples, then `width * height` palette indices, row by row.
use vstd::prelude::*;
use crate::engine::{EngineError, State, NUM_COLORS};

verus! {

/// Where the pixel indices start.
pub const SHEET_PIXELS: usize = 772;
/// Surface that a sprite sheet is decoded into.
pub const SHEET_SURFACE: u8 = 3;

pub open spec fn sheet_width(bytes: Seq<u8>) -> int {
    bytes[0] + 256 * bytes[1]
}

pub open spec fn sheet_height(bytes: Seq<u8>) -> int {
    bytes[2] + 256 * bytes[3]
}

/// Whether a sheet can be decoded onto a canvas of `width` by `height`: the
/// bytes hold all that the header announces, and the sprites fit the canvas.
pub open spec fn sheet_fits(bytes: Seq<u8>, width: int, height: int) -> bool {
    &&& bytes.len() >= 4
    &&& bytes.len() >= SHEET_PIXELS + sheet_width(bytes) * sheet_height(bytes)
    &&& sheet_width(bytes) <= width
    &&& sheet_height(bytes) <= height
}

fn as_u16_le(lo: u8, hi: u8) -> (r: usize)
    ensures
        r == lo + 256 * hi,
{
    (lo as usize) + (hi as usize) * 256
}

impl State {
    /// Decodes a sprite sheet into the palette and surface 3, whose rows are
    /// laid out at the canvas width.
    pub fn load_spritesheet(&mut self, bytes: &[u8]) -> (r: Result<(), EngineError>)
        requires
            old(self).wf(),
        ensures
            final(self).wf(),
            r is Ok <==> sheet_fits(bytes@, old(self).width as int, old(self).height as int),
            r is Err ==> r == Err::<(), EngineError>(EngineError::MalformedSpriteSheet) && *final(self)
                == *old(self),
            r is Ok ==> {
                &&& final(self).palette@ == bytes@.subrange(4, SHEET_PIXELS as int)
                &&& final(self).only_surface_changed(old(self), SHEET_SURFACE as int)
                &&& final(self).offset == old(self).offset
                &&& final(self).width == old(self).width
                &&& final(self).height == old(self).height
                &&& final(self).target == old(self).target
                &&& final(self).clip_rect == old(self).clip_rect
                &&& final(self).transparency@ == old(self).transparency@
                &&& final(self).palette_swap@ == old(self).palette_swap@
                &&& final(self).sides_left@ == old(self).sides_left@
                &&& final(self).sides_right@ == old(self).sides_right@
                &&& forall|a: int, b: int|
                    old(self).on_canvas(a, b) ==> #[trigger] final(self).px(SHEET_SURFACE as int, a, b)
                        == if a < sheet_width(bytes@) && b < sheet_height(bytes@) {
                        bytes@[SHEET_PIXELS + b * sheet_width(bytes@) + a]
                    } else {
                        old(self).px(SHEET_SURFACE as int, a, b)
                    }
            },
    {
        if bytes.len() < 4 {
            return Err(EngineError::MalformedSpriteSheet);
        }
        let w = as_u16_le(bytes[0], bytes[1]);
        let h = as_u16_le(bytes[2], bytes[3]);
        if w > self.width || h > self.height {
            return Err(EngineError::MalformedSpriteSheet);
        }
        assert(w * h <= self.width * self.height) by (nonlinear_arith)
            requires
                w <= self.width,
                h <= self.height,
        ;
        if bytes.len() < SHEET_PIXELS || bytes.len() - SHEET_PIXELS < w * h {
            return Err(EngineError::MalformedSpriteSheet);
        }
        let ghost s0 = *self;
        let mut i: usize = 0;
        while i < NUM_COLORS * 3
            invariant
                self.wf(),
                s0 == *old(self),
                *self == (State { palette: self.palette, ..s0 }),
                bytes@.len() >= SHEET_PIXELS,
                i <= NUM_COLORS * 3,
                self.palette@.len() == NUM_COLORS * 3,
                forall|k: int|
                    0 <= k < NUM_COLORS * 3 ==> #[trigger] self.palette@[k] == if k < i {
                        bytes@[4 + k]
                    } else {
                        s0.palette@[k]
                    },
            decreases NUM_COLORS * 3 - i,
        {
            self.palette.set(i, bytes[4 + i]);
            i = i + 1;
        }
        assert(self.palette@ == bytes@.subrange(4, SHEET_PIXELS as int));
        let ghost s1 = *self;
        let n: usize = bytes.len();
        let mut y: usize = 0;
        while y < h
            invariant
                self.wf(),
                s1.wf(),
                self.same_settings(&s1),
                self.only_surface_changed(&s1, SHEET_SURFACE as int),
                self.sides_left@ == s1.sides_left@,
                self.sides_right@ == s1.sides_right@,
                w <= s1.width,
                h <= s1.height,
                bytes@.len() >= SHEET_PIXELS + w * h,
                n == bytes@.len(),
                w == sheet_width(bytes@),
                h == sheet_height(bytes@),
                y <= h,
                forall|a: int, b: int|
                    s1.on_canvas(a, b) ==> #[trigger] self.px(SHEET_SURFACE as int, a, b) == if a < w
                        && b < y {
                        bytes@[SHEET_PIXELS + b * w + a]
                    } else {
                        s1.px(SHEET_SURFACE as int, a, b)
                    },
            decreases h - y,
        {
            let mut x: usize = 0;
            while x < w
                invariant
                    self.wf(),
                    s1.wf(),
                    self.same_settings(&s1),
                    self.only_surface_changed(&s1, SHEET_SURFACE as int),
                    self.sides_left@ == s1.sides_left@,
                    self.sides_right@ == s1.sides_right@,
                    w <= s1.width,
                    h <= s1.height,
                    bytes@.len() >= SHEET_PIXELS + w * h,
                    n == bytes@.len(),
                    w == sheet_width(bytes@),
                    h == sheet_height(bytes@),
                    y < h,
                    x <= w,
                    forall|a: int, b: int|
                        s1.on_canvas(a, b) ==> #[trigger] self.px(SHEET_SURFACE as int, a, b) == if a
                            < w && (b < y || (b == y && a < x)) {
                            bytes@[SHEET_PIXELS + b * w + a]
                        } else {
                            s1.px(SHEET_SURFACE as int, a, b)
                        },
                decreases w - x,
            {
                assert(y * w + x < w * h && 0 <= y * w) by (nonlinear_arith)
                    requires
                        x < w,
                        y < h,
                ;
                let v = bytes[SHEET_PIXELS + y * w + x];
                self.put_at(SHEET_SURFACE, x as i64, y as i64, v);
                x = x + 1;
            }
            y = y + 1;
        }
        Ok(())
    }
}

} // verus!
