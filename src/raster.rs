//! Pixel, span, rectangle and clear operations on the target surface.
use vstd::prelude::*;
use crate::engine::{
    color_of, lemma_idx_in_surface, lemma_paint_compose, lemma_paint_nothing, State, MAX_SCREEN_SIZE,
};
use crate::geometry::{rect_swap, wrap_byte};

verus! {

/// Whether device pixel `(a, b)` lies in the rectangle spanned by two corners.
pub open spec fn between(a: int, b: int, x0: int, y0: int, x1: int, y1: int) -> bool {
    &&& (x0 <= a <= x1 || x1 <= a <= x0)
    &&& (y0 <= b <= y1 || y1 <= b <= y0)
}

impl State {
    /// What reading logical pixel `(x, y)` of the target gives.
    pub open spec fn pget_spec(&self, x: int, y: int) -> Option<u8> {
        let (a, b) = (self.dev_x(x), self.dev_y(y));
        if self.on_canvas(a, b) {
            Some(self.px(self.target as int, a, b))
        } else {
            None
        }
    }

    /// The device pixels that `rect_fill` paints: the rectangle between the
    /// two corners, provided that its top-left or its bottom-right corner is
    /// on the canvas.
    pub open spec fn rect_fill_hit(&self, x0: int, y0: int, x1: int, y1: int) -> spec_fn(
        int,
        int,
    ) -> bool {
        let (a0, b0, a1, b1) = (self.dev_x(x0), self.dev_y(y0), self.dev_x(x1), self.dev_y(y1));
        let (l, r) = if a0 <= a1 { (a0, a1) } else { (a1, a0) };
        let (t, bt) = if b0 <= b1 { (b0, b1) } else { (b1, b0) };
        |a: int, b: int|
            (self.on_canvas(l, t) || self.on_canvas(r, bt)) && l <= a <= r && t <= b <= bt
    }

    /// Sets logical pixel `(x, y)` of the target to colour `c` if it falls on the canvas.
    pub fn pset(&mut self, x: i32, y: i32, c: i32)
        requires
            old(self).wf(),
        ensures
            final(self).wf(),
            final(self).painted(
                old(self),
                |a: int, b: int| a == old(self).dev_x(x as int) && b == old(self).dev_y(y as int),
                color_of(c as int),
            ),
            final(self).sides_left@ == old(self).sides_left@,
            final(self).sides_right@ == old(self).sides_right@,
    {
        let c = wrap_byte(c);
        let (x, y) = self.offset_point(x, y);
        if self.is_point_on_screen(x, y) {
            self.put(x, y, c);
        } else {
            proof {
                lemma_paint_nothing(self, |a: int, b: int| a == x && b == y, c);
            }
        }
    }

    /// Reads logical pixel `(x, y)` of the target, or `None` off the canvas.
    pub fn pget(&self, x: i32, y: i32) -> (r: Option<u8>)
        requires
            self.wf(),
        ensures
            r == self.pget_spec(x as int, y as int),
    {
        let (x, y) = self.offset_point(x, y);
        if self.is_point_on_screen(x, y) {
            proof {
                lemma_idx_in_surface(self, self.target as int, x as int, y as int);
            }
            let i = (self.target as usize) * MAX_SCREEN_SIZE + (y as usize) * self.width + (x as usize);
            Some(self.surfaces[i])
        } else {
            None
        }
    }

    /// Fills the whole target surface, trailing bytes included, with colour `c`.
    pub fn cls(&mut self, c: i32)
        requires
            old(self).wf(),
        ensures
            final(self).wf(),
            final(self).same_settings(old(self)),
            final(self).sides_left@ == old(self).sides_left@,
            final(self).sides_right@ == old(self).sides_right@,
            forall|i: int|
                0 <= i < final(self).surfaces@.len() ==> #[trigger] final(self).surfaces@[i] == if old(
                    self,
                ).target * MAX_SCREEN_SIZE <= i < (old(self).target + 1) * MAX_SCREEN_SIZE {
                    color_of(c as int)
                } else {
                    old(self).surfaces@[i]
                },
            forall|x: int, y: int|
                old(self).on_canvas(x, y) ==> #[trigger] final(self).px(old(self).target as int, x, y)
                    == color_of(c as int),
    {
        let c = wrap_byte(c);
        let start = (self.target as usize) * MAX_SCREEN_SIZE;
        let end = start + MAX_SCREEN_SIZE;
        let mut i = start;
        while i < end
            invariant
                self.wf(),
                self.same_settings(old(self)),
                self.sides_left@ == old(self).sides_left@,
                self.sides_right@ == old(self).sides_right@,
                start == old(self).target * MAX_SCREEN_SIZE,
                end == start + MAX_SCREEN_SIZE,
                start <= i <= end,
                forall|k: int|
                    0 <= k < self.surfaces@.len() ==> #[trigger] self.surfaces@[k] == if start <= k
                        < i {
                        c
                    } else {
                        old(self).surfaces@[k]
                    },
            decreases end - i,
        {
            self.surfaces.set(i, c);
            i = i + 1;
        }
        proof {
            assert forall|x: int, y: int| old(self).on_canvas(x, y) implies #[trigger] self.px(
                old(self).target as int,
                x,
                y,
            ) == c by {
                lemma_idx_in_surface(old(self), old(self).target as int, x, y);
            }
        }
    }

    /// Fills columns `x0..=x1` of row `y` of the target (nothing when `x0 > x1`).
    pub fn hline(&mut self, x0: usize, x1: usize, y: usize, c: u8)
        requires
            old(self).wf(),
            x1 < old(self).width,
            y < old(self).height,
        ensures
            final(self).wf(),
            final(self).painted(old(self), |a: int, b: int| b == y && x0 <= a <= x1, c),
            final(self).sides_left@ == old(self).sides_left@,
            final(self).sides_right@ == old(self).sides_right@,
    {
        if x0 <= x1 {
            self.span(x0 as i64, x1 as i64, y as i64, c);
        } else {
            proof {
                lemma_paint_nothing(self, |a: int, b: int| b == y && x0 <= a <= x1, c);
            }
        }
    }

    /// Fills device columns `x0..=x1` of device row `y` of the target.
    pub(crate) fn span(&mut self, x0: i64, x1: i64, y: i64, c: u8)
        requires
            old(self).wf(),
            0 <= x0,
            x1 < old(self).width,
            0 <= y < old(self).height,
        ensures
            final(self).wf(),
            final(self).painted(old(self), |a: int, b: int| b == y && x0 <= a <= x1, c),
            final(self).sides_left@ == old(self).sides_left@,
            final(self).sides_right@ == old(self).sides_right@,
    {
        let ghost s0 = *self;
        proof {
            lemma_paint_nothing(self, |a: int, b: int| b == y && x0 <= a < x0, c);
        }
        let mut x = x0;
        while x <= x1
            invariant
                self.wf(),
                s0.wf(),
                s0 == *old(self),
                0 <= x0 <= x,
                x <= x1 + 1 || x == x0,
                x1 < s0.width,
                0 <= y < s0.height,
                self.painted(&s0, |a: int, b: int| b == y && x0 <= a < x, c),
                self.sides_left@ == s0.sides_left@,
                self.sides_right@ == s0.sides_right@,
            decreases x1 + 1 - x,
        {
            let ghost s1 = *self;
            self.put(x, y, c);
            proof {
                lemma_paint_compose(
                    &s0,
                    &s1,
                    self,
                    |a: int, b: int| b == y && x0 <= a < x,
                    |a: int, b: int| a == x && b == y,
                    |a: int, b: int| b == y && x0 <= a < x + 1,
                    c,
                );
            }
            x = x + 1;
        }
        proof {
            assert forall|a: int, b: int| #[trigger] s0.on_canvas(a, b) implies ((b == y && x0 <= a
                < x) == (b == y && x0 <= a <= x1)) by {}
        }
    }

    /// Fills the rectangle between two logical corners, cut to the canvas.
    /// The corners are put in order first; nothing is drawn unless the
    /// top-left or the bottom-right corner then falls on the canvas.
    pub fn rect_fill(&mut self, x0: i32, y0: i32, x1: i32, y1: i32, c: i32)
        requires
            old(self).wf(),
        ensures
            final(self).wf(),
            final(self).painted(
                old(self),
                old(self).rect_fill_hit(x0 as int, y0 as int, x1 as int, y1 as int),
                color_of(c as int),
            ),
            final(self).sides_left@ == old(self).sides_left@,
            final(self).sides_right@ == old(self).sides_right@,
    {
        self.fill_rect_at(x0 as i64, y0 as i64, x1 as i64, y1 as i64, wrap_byte(c));
    }

    /// `rect_fill` for logical corners that need not fit an `i32`.
    pub(crate) fn fill_rect_at(&mut self, x0: i64, y0: i64, x1: i64, y1: i64, c: u8)
        requires
            old(self).wf(),
            -0x100_0000_0000 <= x0 <= 0x100_0000_0000,
            -0x100_0000_0000 <= y0 <= 0x100_0000_0000,
            -0x100_0000_0000 <= x1 <= 0x100_0000_0000,
            -0x100_0000_0000 <= y1 <= 0x100_0000_0000,
        ensures
            final(self).wf(),
            final(self).painted(
                old(self),
                old(self).rect_fill_hit(x0 as int, y0 as int, x1 as int, y1 as int),
                c,
            ),
            final(self).sides_left@ == old(self).sides_left@,
            final(self).sides_right@ == old(self).sides_right@,
    {
        let ghost s0 = *self;
        let ghost hit = s0.rect_fill_hit(x0 as int, y0 as int, x1 as int, y1 as int);
        let (x0, y0) = (x0 - self.offset.x as i64, y0 - self.offset.y as i64);
        let (x1, y1) = (x1 - self.offset.x as i64, y1 - self.offset.y as i64);
        let (x0, y0, x1, y1) = rect_swap(x0, y0, x1, y1);
        if self.is_point_on_screen(x0, y0) || self.is_point_on_screen(x1, y1) {
            let (lx0, ly0) = self.limit_point(x0, y0);
            let (lx1, ly1) = self.limit_point(x1, y1);
            proof {
                lemma_paint_nothing(self, |a: int, b: int| lx0 <= a <= lx1 && ly0 <= b < ly0, c);
            }
            let mut y = ly0;
            while y <= ly1
                invariant
                    self.wf(),
                    s0.wf(),
                    s0 == *old(self),
                    0 <= lx0 <= lx1 < s0.width,
                    0 <= ly0 <= ly1 < s0.height,
                    ly0 <= y <= ly1 + 1,
                    self.painted(&s0, |a: int, b: int| lx0 <= a <= lx1 && ly0 <= b < y, c),
                    self.sides_left@ == s0.sides_left@,
                    self.sides_right@ == s0.sides_right@,
                decreases ly1 + 1 - y,
            {
                let ghost s1 = *self;
                self.span(lx0, lx1, y, c);
                proof {
                    lemma_paint_compose(
                        &s0,
                        &s1,
                        self,
                        |a: int, b: int| lx0 <= a <= lx1 && ly0 <= b < y,
                        |a: int, b: int| b == y && lx0 <= a <= lx1,
                        |a: int, b: int| lx0 <= a <= lx1 && ly0 <= b < y + 1,
                        c,
                    );
                }
                y = y + 1;
            }
            proof {
                assert forall|a: int, b: int| #[trigger] s0.on_canvas(a, b) implies ((lx0 <= a <= lx1
                    && ly0 <= b < y) == hit(a, b)) by {}
            }
        } else {
            proof {
                assert forall|a: int, b: int| #[trigger] s0.on_canvas(a, b) implies !hit(a, b) by {}
                lemma_paint_nothing(self, hit, c);
            }
        }
    }
}

} // verus!
