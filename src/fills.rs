//! The public drawing primitives built on the tracers: lines, circles and
//! triangles, stroked or filled through the span buffer, fat lines, stroked
//! rectangles and fans of triangles.
use vstd::prelude::*;
use crate::engine::{
    color_of, lemma_paint_compose, lemma_paint_nothing, lemma_paint_same, ClipRect, State,
    MAX_SCREEN_SIZE,
};
use crate::geometry::wrap_byte;
use crate::shapes::{
    coord_ok, lemma_spans_same, lemma_spans_step, lemma_traced_trans, line_hit, ring_hit, spans_traced,
    PixelSink,
};

verus! {

/// The pixels that a scan fill paints: the rows `yt..yb` that the clip
/// admits, each from its recorded left end to its right end widened by
/// `extra`, cut to the clip's columns.
pub open spec fn span_hit(
    clip: ClipRect,
    left: Seq<i64>,
    right: Seq<i64>,
    yt: int,
    yb: int,
    extra: int,
) -> spec_fn(int, int) -> bool {
    |a: int, b: int|
        {
            &&& clip.t <= b < clip.b
            &&& yt <= b < yb
            &&& clip.l <= a <= clip.r - 1
            &&& left[b] <= a <= right[b] + extra
        }
}

/// Left ends of an emptied span buffer: the canvas width on every row.
pub open spec fn empty_left(w: int) -> Seq<i64> {
    Seq::new(MAX_SCREEN_SIZE as nat, |i: int| w as i64)
}

/// Right ends of an emptied span buffer: -1 on every row.
pub open spec fn empty_right() -> Seq<i64> {
    Seq::new(MAX_SCREEN_SIZE as nat, |i: int| -1i64)
}

/// The outline of the triangle with device corners `(x0, y0)`, `(x1, y1)`,
/// `(x2, y2)`: the points of its three traced edges.
pub open spec fn tri_outline(x0: int, y0: int, x1: int, y1: int, x2: int, y2: int) -> spec_fn(
    int,
    int,
) -> bool {
    |a: int, b: int|
        line_hit(x0, y0, x1, y1, a, b) || line_hit(x1, y1, x2, y2, a, b) || line_hit(
            x2,
            y2,
            x0,
            y0,
            a,
            b,
        )
}

/// The pixels that filling the triangle with device corners `(x0, y0)`,
/// `(x1, y1)`, `(x2, y2)` paints under clip `clip`: between its outline's
/// points, the right end widened by one, on the rows from its highest to its
/// lowest corner.
pub open spec fn tri_fill_dev(
    clip: ClipRect,
    x0: int,
    y0: int,
    x1: int,
    y1: int,
    x2: int,
    y2: int,
) -> spec_fn(int, int) -> bool {
    outline_fill(
        clip,
        tri_outline(x0, y0, x1, y1, x2, y2),
        min3(y0, y1, y2),
        max3(y0, y1, y2) + 1,
        1,
    )
}

/// Spans traced from starting ends stay traced from any ends that agree with
/// them on the rows that count.
pub proof fn lemma_spans_restart(
    s: &State,
    l0: Seq<i64>,
    r0: Seq<i64>,
    l1: Seq<i64>,
    r1: Seq<i64>,
    h: int,
    hit: spec_fn(int, int) -> bool,
)
    requires
        spans_traced(s, l0, r0, h, hit),
        forall|y: int| 0 <= y < h ==> l0[y] == l1[y] && r0[y] == r1[y],
    ensures
        spans_traced(s, l1, r1, h, hit),
{
    assert forall|y: int| 0 <= y < h implies (#[trigger] s.sides_left@[y] == l1[y] || hit(
        s.sides_left@[y] as int,
        y,
    )) && s.sides_left@[y] <= l1[y] by {
        assert(l0[y] == l1[y]);
    }
    assert forall|y: int| 0 <= y < h implies (#[trigger] s.sides_right@[y] == r1[y] || hit(
        s.sides_right@[y] as int,
        y,
    )) && s.sides_right@[y] >= r1[y] by {
        assert(r0[y] == r1[y]);
    }
}

/// Column `a` of row `b` lies between points of the outline `hit` on that
/// row: one at or left of it, and one at or right of `a - extra` (or `a -
/// extra` is left of the canvas).
pub open spec fn between_outline(hit: spec_fn(int, int) -> bool, a: int, b: int, extra: int) -> bool {
    &&& exists|p: int| #[trigger] hit(p, b) && p <= a
    &&& (a - extra < 0 || exists|q: int| #[trigger] hit(q, b) && a - extra <= q)
}

/// The pixels that a scan fill of the outline `hit` paints: on the rows
/// `yt..yb` that the clip admits, the clip's columns that lie between
/// points of the outline on the same row.
pub open spec fn outline_fill(
    clip: ClipRect,
    hit: spec_fn(int, int) -> bool,
    yt: int,
    yb: int,
    extra: int,
) -> spec_fn(int, int) -> bool {
    |a: int, b: int|
        {
            &&& clip.t <= b < clip.b
            &&& yt <= b < yb
            &&& clip.l <= a <= clip.r - 1
            &&& between_outline(hit, a, b, extra)
        }
}

/// On the canvas, filling the spans traced from an empty buffer is filling
/// between the outline's points.
pub proof fn lemma_outline_fill(
    s0: &State,
    s: &State,
    hit: spec_fn(int, int) -> bool,
    yt: int,
    yb: int,
    extra: int,
)
    requires
        s0.wf(),
        spans_traced(s, empty_left(s0.width as int), empty_right(), s0.span_rows(), hit),
        extra == 0 || extra == 1,
    ensures
        forall|a: int, b: int|
            s0.on_canvas(a, b) ==> #[trigger] span_hit(
                s0.clip_rect,
                s.sides_left@,
                s.sides_right@,
                yt,
                yb,
                extra,
            )(a, b) == outline_fill(s0.clip_rect, hit, yt, yb, extra)(a, b),
{
    assert forall|a: int, b: int| s0.on_canvas(a, b) implies #[trigger] span_hit(
        s0.clip_rect,
        s.sides_left@,
        s.sides_right@,
        yt,
        yb,
        extra,
    )(a, b) == outline_fill(s0.clip_rect, hit, yt, yb, extra)(a, b) by {
        let l = s.sides_left@[b];
        let r = s.sides_right@[b];
        assert(empty_left(s0.width as int)[b] == s0.width);
        assert(empty_right()[b] == -1);
        if l <= a {
            assert(hit(l as int, b));
        }
        if a <= r + extra && a - extra >= 0 {
            assert(hit(r as int, b));
        }
        if between_outline(hit, a, b, extra) {
            let p = choose|p: int| #[trigger] hit(p, b) && p <= a;
            assert(l <= p);
            if a - extra >= 0 {
                let q = choose|q: int| #[trigger] hit(q, b) && a - extra <= q;
                assert(q <= r);
            }
        }
    }
}

/// A paint in a single colour leaves each pixel unchanged or in that colour.
pub proof fn lemma_painted_stroked(s0: &State, s1: &State, h: spec_fn(int, int) -> bool, c: u8)
    requires
        s1.painted(s0, h, c),
    ensures
        s1.stroked(s0, c),
{
    assert forall|x: int, y: int| s0.on_canvas(x, y) implies {
        let v = #[trigger] s1.px(s0.target as int, x, y);
        v == s0.px(s0.target as int, x, y) || v == c
    } by {
        if h(x, y) {
        }
    }
}

pub proof fn lemma_stroked_trans(s0: &State, s1: &State, s2: &State, c: u8)
    requires
        s1.stroked(s0, c),
        s2.stroked(s1, c),
    ensures
        s2.stroked(s0, c),
{
    assert forall|x: int, y: int| s0.on_canvas(x, y) implies {
        let v = #[trigger] s2.px(s0.target as int, x, y);
        v == s0.px(s0.target as int, x, y) || v == c
    } by {
        assert(s1.on_canvas(x, y));
    }
}

impl State {
    /// Turns the span buffer into pixels: each row of `yt..yb` that the clip
    /// admits is filled from its span's left end to its right end plus `extra`,
    /// cut to the clip.
    fn scan_fill(&mut self, yt: i64, yb: i64, extra: i64, c: u8)
        requires
            old(self).wf(),
            extra == 0 || extra == 1,
        ensures
            final(self).wf(),
            final(self).painted(
                old(self),
                span_hit(
                    old(self).clip_rect,
                    old(self).sides_left@,
                    old(self).sides_right@,
                    yt as int,
                    yb as int,
                    extra as int,
                ),
                c,
            ),
            final(self).sides_left@ == old(self).sides_left@,
            final(self).sides_right@ == old(self).sides_right@,
    {
        let ghost s0 = *self;
        let ghost hit = span_hit(
            s0.clip_rect,
            s0.sides_left@,
            s0.sides_right@,
            yt as int,
            yb as int,
            extra as int,
        );
        if self.width == 0 {
            proof {
                lemma_paint_nothing(self, hit, c);
            }
            return;
        }
        let clip = self.clip_rect;
        let top = if clip.t > yt { clip.t } else { yt };
        let bottom = if clip.b < yb { clip.b } else { yb };
        proof {
            lemma_paint_nothing(self, |a: int, b: int| hit(a, b) && b < top, c);
        }
        let mut y = top;
        while y < bottom
            invariant
                self.wf(),
                s0.wf(),
                s0 == *old(self),
                clip == s0.clip_rect,
                top >= clip.t,
                top >= yt,
                bottom <= yb,
                top >= 0,
                bottom <= clip.b,
                bottom <= s0.height,
                s0.height <= MAX_SCREEN_SIZE,
                top <= y,
                hit == span_hit(
                    s0.clip_rect,
                    s0.sides_left@,
                    s0.sides_right@,
                    yt as int,
                    yb as int,
                    extra as int,
                ),
                extra == 0 || extra == 1,
                self.painted(&s0, |a: int, b: int| hit(a, b) && b < y, c),
                self.sides_left@ == s0.sides_left@,
                self.sides_right@ == s0.sides_right@,
            decreases bottom - y,
        {
            let sl = self.sides_left[y as usize];
            let sr = self.sides_right[y as usize];
            let xl = if sl > clip.l { sl } else { clip.l };
            let xr = if sr > clip.r - 1 - extra { clip.r - 1 } else { sr + extra };
            let ghost s1 = *self;
            if xl <= xr {
                self.span(xl, xr, y, c);
                proof {
                    assert forall|a: int, b: int|
                        #![trigger hit(a, b)]
                        (hit(a, b) && b < y + 1) == ((hit(a, b) && b < y) || (b == y && xl <= a
                            <= xr)) by {
                        if b == y {
                            assert(hit(a, b) == (xl <= a <= xr));
                        }
                    }
                    lemma_paint_compose(
                        &s0,
                        &s1,
                        self,
                        |a: int, b: int| hit(a, b) && b < y,
                        |a: int, b: int| b == y && xl <= a <= xr,
                        |a: int, b: int| hit(a, b) && b < y + 1,
                        c,
                    );
                }
            } else {
                proof {
                    assert forall|a: int, b: int| s0.on_canvas(a, b) implies #[trigger] self.px(
                        s0.target as int,
                        a,
                        b,
                    ) == if hit(a, b) && b < y + 1 {
                        c
                    } else {
                        s0.px(s0.target as int, a, b)
                    } by {
                        if b == y {
                            assert(!hit(a, b));
                        }
                    }
                }
            }
            y = y + 1;
        }
        proof {
            assert forall|a: int, b: int| s0.on_canvas(a, b) implies #[trigger] self.px(
                s0.target as int,
                a,
                b,
            ) == if hit(a, b) {
                c
            } else {
                s0.px(s0.target as int, a, b)
            } by {
                if hit(a, b) {
                    assert(b < y);
                }
            }
        }
    }

    /// Fills the circle about device point `(cx, cy)` through the span buffer.
    fn fill_circle(&mut self, cx: i64, cy: i64, r: i32, c: u8)
        requires
            old(self).wf(),
            coord_ok(cx as int),
            coord_ok(cy as int),
            r > 1,
        ensures
            final(self).wf(),
            final(self).painted(
                old(self),
                span_hit(
                    old(self).clip_rect,
                    final(self).sides_left@,
                    final(self).sides_right@,
                    cy - r,
                    cy + r + 1,
                    0,
                ),
                c,
            ),
            final(self).painted(
                old(self),
                outline_fill(
                    old(self).clip_rect,
                    |a: int, b: int| ring_hit(cx as int, cy as int, r as int, a, b),
                    cy - r,
                    cy + r + 1,
                    0,
                ),
                c,
            ),
            final(self).circle_marked(PixelSink::Span, cx as int, cy as int, r as int, c),
            spans_traced(
                final(self),
                empty_left(old(self).width as int),
                empty_right(),
                old(self).span_rows(),
                |a: int, b: int| ring_hit(cx as int, cy as int, r as int, a, b),
            ),
    {
        self.init_sides_buffer();
        let ghost s1 = *self;
        self.trace_circle(cx, cy, r, c, PixelSink::Span);
        proof {
            lemma_spans_restart(
                self,
                s1.sides_left@,
                s1.sides_right@,
                empty_left(s1.width as int),
                empty_right(),
                s1.span_rows(),
                |a: int, b: int| ring_hit(cx as int, cy as int, r as int, a, b),
            );
        }
        let ghost s2 = *self;
        self.scan_fill(cy - r as i64, cy + r as i64 + 1, 0, c);
        proof {
            let ghost hit = |a: int, b: int| ring_hit(cx as int, cy as int, r as int, a, b);
            lemma_outline_fill(old(self), self, hit, cy - r, cy + r + 1, 0);
            lemma_paint_same(
                old(self),
                self,
                span_hit(old(self).clip_rect, self.sides_left@, self.sides_right@, cy - r, cy + r + 1, 0),
                outline_fill(old(self).clip_rect, hit, cy - r, cy + r + 1, 0),
                c,
            );
        }
    }

    /// Fills the triangle with device corners `(x0, y0)`, `(x1, y1)`, `(x2, y2)`
    /// through the span buffer.
    fn fill_triangle(&mut self, x0: i64, y0: i64, x1: i64, y1: i64, x2: i64, y2: i64, c: u8)
        requires
            old(self).wf(),
            coord_ok(x0 as int),
            coord_ok(y0 as int),
            coord_ok(x1 as int),
            coord_ok(y1 as int),
            coord_ok(x2 as int),
            coord_ok(y2 as int),
        ensures
            final(self).wf(),
            final(self).painted(
                old(self),
                span_hit(
                    old(self).clip_rect,
                    final(self).sides_left@,
                    final(self).sides_right@,
                    min3(y0 as int, y1 as int, y2 as int),
                    max3(y0 as int, y1 as int, y2 as int) + 1,
                    1,
                ),
                c,
            ),
            final(self).painted(
                old(self),
                tri_fill_dev(old(self).clip_rect, x0 as int, y0 as int, x1 as int, y1 as int, x2 as int, y2 as int),
                c,
            ),
            final(self).marked(PixelSink::Span, x0 as int, y0 as int, c),
            final(self).marked(PixelSink::Span, x1 as int, y1 as int, c),
            final(self).marked(PixelSink::Span, x2 as int, y2 as int, c),
            spans_traced(
                final(self),
                empty_left(old(self).width as int),
                empty_right(),
                old(self).span_rows(),
                tri_outline(x0 as int, y0 as int, x1 as int, y1 as int, x2 as int, y2 as int),
            ),
    {
        self.init_sides_buffer();
        let ghost s1 = *self;
        self.trace_line(x0, y0, x1, y1, c, PixelSink::Span);
        let ghost s2 = *self;
        self.trace_line(x1, y1, x2, y2, c, PixelSink::Span);
        let ghost s3 = *self;
        self.trace_line(x2, y2, x0, y0, c, PixelSink::Span);
        proof {
            let ghost (l0, r0, hh) = (s1.sides_left@, s1.sides_right@, s1.span_rows());
            let ghost e0 = |a: int, b: int| line_hit(x0 as int, y0 as int, x1 as int, y1 as int, a, b);
            let ghost e1 = |a: int, b: int| line_hit(x1 as int, y1 as int, x2 as int, y2 as int, a, b);
            let ghost e2 = |a: int, b: int| line_hit(x2 as int, y2 as int, x0 as int, y0 as int, a, b);
            let ghost e01 = |a: int, b: int| e0(a, b) || e1(a, b);
            let ghost all = tri_outline(x0 as int, y0 as int, x1 as int, y1 as int, x2 as int, y2 as int);
            lemma_spans_step(&s2, &s3, l0, r0, hh, e0, e1, e01);
            lemma_spans_step(&s3, self, l0, r0, hh, e01, e2, all);
            lemma_spans_restart(self, l0, r0, empty_left(s1.width as int), empty_right(), hh, all);
            crate::shapes::lemma_marked_kept(&s2, &s3, PixelSink::Span, x0 as int, y0 as int, c);
            crate::shapes::lemma_marked_kept(&s3, self, PixelSink::Span, x0 as int, y0 as int, c);
            crate::shapes::lemma_marked_kept(&s3, self, PixelSink::Span, x1 as int, y1 as int, c);
        }
        let top = if y0 < y1 { if y0 < y2 { y0 } else { y2 } } else { if y1 < y2 { y1 } else { y2 } };
        let bot = if y0 > y1 { if y0 > y2 { y0 } else { y2 } } else { if y1 > y2 { y1 } else { y2 } };
        self.scan_fill(top, bot + 1, 1, c);
        proof {
            let ghost all = tri_outline(x0 as int, y0 as int, x1 as int, y1 as int, x2 as int, y2 as int);
            lemma_outline_fill(old(self), self, all, top as int, bot + 1, 1);
            lemma_paint_same(
                old(self),
                self,
                span_hit(old(self).clip_rect, self.sides_left@, self.sides_right@, top as int, bot + 1, 1),
                tri_fill_dev(old(self).clip_rect, x0 as int, y0 as int, x1 as int, y1 as int, x2 as int, y2 as int),
                c,
            );
        }
    }

    /// The device pixels that `circ_fill` paints: the centre for a radius of
    /// at most 0; the outline and the centre for a radius of 1; otherwise the
    /// clipped rows between the points of the outline.
    pub open spec fn circ_fill_hit(&self, x: int, y: int, r: int) -> spec_fn(int, int) -> bool {
        let (cx, cy) = (self.dev_x(x), self.dev_y(y));
        if r <= 0 {
            |a: int, b: int| a == cx && b == cy
        } else if r == 1 {
            |a: int, b: int| ring_hit(cx, cy, 1, a, b) || (a == cx && b == cy)
        } else {
            outline_fill(self.clip_rect, |a: int, b: int| ring_hit(cx, cy, r, a, b), cy - r, cy + r + 1, 0)
        }
    }

    /// The device pixels that `tri_fill` paints.
    pub open spec fn tri_fill_hit(&self, x0: int, y0: int, x1: int, y1: int, x2: int, y2: int) -> spec_fn(
        int,
        int,
    ) -> bool {
        tri_fill_dev(
            self.clip_rect,
            self.dev_x(x0),
            self.dev_y(y0),
            self.dev_x(x1),
            self.dev_y(y1),
            self.dev_x(x2),
            self.dev_y(y2),
        )
    }

    /// The device pixels that `line` paints: the rectangle fill's for a
    /// horizontal segment, the walk's points for any other.
    pub open spec fn line_paint(&self, x0: int, y0: int, x1: int, y1: int) -> spec_fn(
        int,
        int,
    ) -> bool {
        if y0 == y1 {
            self.rect_fill_hit(x0, y0, x1, y1)
        } else {
            |a: int, b: int|
                crate::shapes::line_hit(
                    self.dev_x(x0),
                    self.dev_y(y0),
                    self.dev_x(x1),
                    self.dev_y(y1),
                    a,
                    b,
                )
        }
    }

    /// The device pixels that `tri` paints: those of its three segments.
    pub open spec fn tri_hit(&self, x0: int, y0: int, x1: int, y1: int, x2: int, y2: int) -> spec_fn(
        int,
        int,
    ) -> bool {
        |a: int, b: int|
            self.line_paint(x0, y0, x1, y1)(a, b) || self.line_paint(x1, y1, x2, y2)(a, b)
                || self.line_paint(x2, y2, x0, y0)(a, b)
    }

    /// Draws the segment between two logical points: a horizontal segment is
    /// filled as a one-row rectangle, any other is walked with Bresenham's algorithm.
    pub fn line(&mut self, x0: i32, y0: i32, x1: i32, y1: i32, c: i32)
        requires
            old(self).wf(),
        ensures
            final(self).wf(),
            final(self).sides_left@ == old(self).sides_left@,
            final(self).sides_right@ == old(self).sides_right@,
            final(self).painted(
                old(self),
                old(self).line_paint(x0 as int, y0 as int, x1 as int, y1 as int),
                color_of(c as int),
            ),
    {
        if y0 == y1 {
            self.rect_fill(x0, y0, x1, y1, c);
            return;
        }
        let c = wrap_byte(c);
        let (a0, b0) = self.offset_point(x0, y0);
        let (a1, b1) = self.offset_point(x1, y1);
        self.trace_line(a0, b0, a1, b1, c, PixelSink::Write);
        proof {
            lemma_paint_same(
                old(self),
                self,
                |a: int, b: int| crate::shapes::line_hit(a0 as int, b0 as int, a1 as int, b1 as int, a, b),
                old(self).line_paint(x0 as int, y0 as int, x1 as int, y1 as int),
                c,
            );
        }
    }

    /// Draws the outline of the circle of radius `r` about logical `(x, y)`;
    /// nothing for a radius below 1.
    pub fn circ(&mut self, x: i32, y: i32, r: i32, c: i32)
        requires
            old(self).wf(),
        ensures
            final(self).traced(old(self), PixelSink::Write, color_of(c as int)),
            r < 1 ==> *final(self) == *old(self),
            r >= 1 ==> final(self).circle_marked(
                PixelSink::Write,
                old(self).dev_x(x as int),
                old(self).dev_y(y as int),
                r as int,
                color_of(c as int),
            ),
            r >= 1 ==> final(self).painted(
                old(self),
                |a: int, b: int|
                    crate::shapes::ring_hit(
                        old(self).dev_x(x as int),
                        old(self).dev_y(y as int),
                        r as int,
                        a,
                        b,
                    ),
                color_of(c as int),
            ),
    {
        let c = wrap_byte(c);
        self.circ_with_pixel_func(x, y, r, c, PixelSink::Write);
    }

    /// Fills the circle of radius `r` about logical `(x, y)`, cut to the clip
    /// rectangle. A radius of at most 0 sets the centre pixel, a radius of 1
    /// draws the outline and the centre; larger circles are traced into the
    /// span buffer and filled row by row.
    pub fn circ_fill(&mut self, x: i32, y: i32, r: i32, c: i32)
        requires
            old(self).wf(),
        ensures
            final(self).wf(),
            final(self).stroked(old(self), color_of(c as int)),
            final(self).painted(old(self), old(self).circ_fill_hit(x as int, y as int, r as int), color_of(c as int)),
            r <= 0 ==> final(self).painted(
                old(self),
                |a: int, b: int| a == old(self).dev_x(x as int) && b == old(self).dev_y(y as int),
                color_of(c as int),
            ),
            r == 1 ==> final(self).marked(
                PixelSink::Write,
                old(self).dev_x(x as int),
                old(self).dev_y(y as int),
                color_of(c as int),
            ),
            r == 1 ==> final(self).circle_marked(
                PixelSink::Write,
                old(self).dev_x(x as int),
                old(self).dev_y(y as int),
                1,
                color_of(c as int),
            ),
            r > 1 ==> final(self).painted(
                old(self),
                span_hit(
                    old(self).clip_rect,
                    final(self).sides_left@,
                    final(self).sides_right@,
                    old(self).dev_y(y as int) - r,
                    old(self).dev_y(y as int) + r + 1,
                    0,
                ),
                color_of(c as int),
            ),
            old(self).clipped_canvas(old(self).dev_x(x as int), old(self).dev_y(y as int))
                ==> final(self).px(
                old(self).target as int,
                old(self).dev_x(x as int),
                old(self).dev_y(y as int),
            ) == color_of(c as int),
            r > 1 ==> spans_traced(
                final(self),
                empty_left(old(self).width as int),
                empty_right(),
                old(self).span_rows(),
                |a: int, b: int| ring_hit(old(self).dev_x(x as int), old(self).dev_y(y as int), r as int, a, b),
            ),
            r > 1 ==> final(self).circle_marked(
                PixelSink::Span,
                old(self).dev_x(x as int),
                old(self).dev_y(y as int),
                r as int,
                color_of(c as int),
            ),
    {
        let ghost s0 = *self;
        if r <= 0 {
            self.pset(x, y, c);
            proof {
                lemma_painted_stroked(&s0, self, |a: int, b: int| a == s0.dev_x(x as int) && b
                    == s0.dev_y(y as int), color_of(c as int));
                lemma_paint_same(&s0, self, |a: int, b: int| a == s0.dev_x(x as int) && b
                    == s0.dev_y(y as int), s0.circ_fill_hit(x as int, y as int, r as int), color_of(c as int));
            }
            return;
        }
        if r == 1 {
            self.circ(x, y, r, c);
            let ghost s1 = *self;
            self.pset(x, y, c);
            proof {
                let ghost h = |a: int, b: int| a == s0.dev_x(x as int) && b == s0.dev_y(y as int);
                lemma_painted_stroked(&s1, self, h, color_of(c as int));
                lemma_paint_compose(
                    &s0,
                    &s1,
                    self,
                    |a: int, b: int| crate::shapes::ring_hit(s0.dev_x(x as int), s0.dev_y(y as int), r as int, a, b),
                    |a: int, b: int| a == s1.dev_x(x as int) && b == s1.dev_y(y as int),
                    s0.circ_fill_hit(x as int, y as int, r as int),
                    color_of(c as int),
                );
                lemma_stroked_trans(&s0, &s1, self, color_of(c as int));
                crate::shapes::lemma_marked_kept(&s1, self, PixelSink::Write, s0.dev_x(x as int) + 1, s0.dev_y(y as int), color_of(c as int));
                crate::shapes::lemma_marked_kept(&s1, self, PixelSink::Write, s0.dev_x(x as int) - 1, s0.dev_y(y as int), color_of(c as int));
                crate::shapes::lemma_marked_kept(&s1, self, PixelSink::Write, s0.dev_x(x as int), s0.dev_y(y as int) + 1, color_of(c as int));
                crate::shapes::lemma_marked_kept(&s1, self, PixelSink::Write, s0.dev_x(x as int), s0.dev_y(y as int) - 1, color_of(c as int));
            }
            return;
        }
        let col = wrap_byte(c);
        let (cx, cy) = self.offset_point(x, y);
        self.fill_circle(cx, cy, r, col);
        proof {
            let ghost h = span_hit(
                s0.clip_rect,
                self.sides_left@,
                self.sides_right@,
                cy - r,
                cy + r + 1,
                0,
            );
            lemma_painted_stroked(&s0, self, h, col);
            lemma_outline_fill(&s0, self, |a: int, b: int| ring_hit(cx as int, cy as int, r as int, a, b), cy - r, cy + r + 1, 0);
            lemma_paint_same(&s0, self, h, s0.circ_fill_hit(x as int, y as int, r as int), col);
            if s0.clipped_canvas(cx as int, cy as int) {
                assert(self.sides_left@[cy as int] <= cx - r);
                assert(self.sides_right@[cy as int] >= cx + r);
                assert(h(cx as int, cy as int));
            }
        }
    }

    /// Draws the outline of a triangle as three segments.
    pub fn tri(&mut self, x0: i32, y0: i32, x1: i32, y1: i32, x2: i32, y2: i32, c: i32)
        requires
            old(self).wf(),
        ensures
            final(self).wf(),
            final(self).painted(
                old(self),
                old(self).tri_hit(x0 as int, y0 as int, x1 as int, y1 as int, x2 as int, y2 as int),
                color_of(c as int),
            ),
            final(self).stroked(old(self), color_of(c as int)),
            final(self).sides_left@ == old(self).sides_left@,
            final(self).sides_right@ == old(self).sides_right@,
    {
        let ghost s0 = *self;
        let ghost col = color_of(c as int);
        self.line(x0, y0, x1, y1, c);
        let ghost s1 = *self;
        self.line(x1, y1, x2, y2, c);
        let ghost s2 = *self;
        self.line(x2, y2, x0, y0, c);
        proof {
            let ghost (e01, e12, e20) = (
                s0.line_paint(x0 as int, y0 as int, x1 as int, y1 as int),
                s1.line_paint(x1 as int, y1 as int, x2 as int, y2 as int),
                s2.line_paint(x2 as int, y2 as int, x0 as int, y0 as int),
            );
            let ghost h01 = |a: int, b: int| e01(a, b) || e12(a, b);
            lemma_paint_compose(&s0, &s1, &s2, e01, e12, h01, col);
            lemma_paint_compose(
                &s0,
                &s2,
                self,
                h01,
                e20,
                s0.tri_hit(x0 as int, y0 as int, x1 as int, y1 as int, x2 as int, y2 as int),
                col,
            );
            lemma_painted_stroked(
                &s0,
                self,
                s0.tri_hit(x0 as int, y0 as int, x1 as int, y1 as int, x2 as int, y2 as int),
                col,
            );
        }
    }

    /// Fills a triangle given by three logical corners, cut to the clip
    /// rectangle: its edges are traced into the span buffer, then the rows
    /// from the highest to the lowest corner are filled.
    pub fn tri_fill(&mut self, x0: i32, y0: i32, x1: i32, y1: i32, x2: i32, y2: i32, c: i32)
        requires
            old(self).wf(),
        ensures
            final(self).wf(),
            final(self).painted(
                old(self),
                span_hit(
                    old(self).clip_rect,
                    final(self).sides_left@,
                    final(self).sides_right@,
                    min3(old(self).dev_y(y0 as int), old(self).dev_y(y1 as int), old(self).dev_y(y2 as int)),
                    max3(old(self).dev_y(y0 as int), old(self).dev_y(y1 as int), old(self).dev_y(y2 as int)) + 1,
                    1,
                ),
                color_of(c as int),
            ),
            final(self).painted(
                old(self),
                old(self).tri_fill_hit(x0 as int, y0 as int, x1 as int, y1 as int, x2 as int, y2 as int),
                color_of(c as int),
            ),
            spans_traced(
                final(self),
                empty_left(old(self).width as int),
                empty_right(),
                old(self).span_rows(),
                tri_outline(
                    old(self).dev_x(x0 as int),
                    old(self).dev_y(y0 as int),
                    old(self).dev_x(x1 as int),
                    old(self).dev_y(y1 as int),
                    old(self).dev_x(x2 as int),
                    old(self).dev_y(y2 as int),
                ),
            ),
            final(self).marked(PixelSink::Span, old(self).dev_x(x0 as int), old(self).dev_y(y0 as int), 0),
            final(self).marked(PixelSink::Span, old(self).dev_x(x1 as int), old(self).dev_y(y1 as int), 0),
            final(self).marked(PixelSink::Span, old(self).dev_x(x2 as int), old(self).dev_y(y2 as int), 0),
    {
        let col = wrap_byte(c);
        let (a0, b0) = self.offset_point(x0, y0);
        let (a1, b1) = self.offset_point(x1, y1);
        let (a2, b2) = self.offset_point(x2, y2);
        self.fill_triangle(a0, b0, a1, b1, a2, b2, col);
    }

    /// The device pixels that `fat_line` paints: the two triangles of the
    /// quad between the ends shifted by the scaled normal and by its
    /// opposite, and with `caps` the two end discs.
    pub open spec fn fat_line_hit(
        &self,
        x0: int,
        y0: int,
        x1: int,
        y1: int,
        half_width: int,
        caps: bool,
    ) -> spec_fn(int, int) -> bool {
        let (nx, ny) = normal_of(x0, y0, x1, y1, half_width);
        let (a0, b0, a1, b1) = (self.dev_x(x0), self.dev_y(y0), self.dev_x(x1), self.dev_y(y1));
        |a: int, b: int|
            tri_fill_dev(self.clip_rect, a0 - nx, b0 - ny, a1 - nx, b1 - ny, a0 + nx, b0 + ny)(a, b)
                || tri_fill_dev(self.clip_rect, a1 - nx, b1 - ny, a0 + nx, b0 + ny, a1 + nx, b1 + ny)(
                a,
                b,
            ) || (caps && (self.circ_fill_hit(x1, y1, half_width)(a, b) || self.circ_fill_hit(
                x0,
                y0,
                half_width,
            )(a, b)))
    }

    /// Draws a segment `2 * half_width` wide: both ends are shifted by the
    /// segment's unit normal scaled by `half_width` and by its opposite, the
    /// quad between them is filled as two triangles, and with `caps` each end
    /// gets a filled circle of radius `half_width`.
    pub fn fat_line(&mut self, x0: i32, y0: i32, x1: i32, y1: i32, half_width: i32, caps: bool, c: i32)
        requires
            old(self).wf(),
        ensures
            final(self).wf(),
            final(self).stroked(old(self), color_of(c as int)),
            final(self).painted(
                old(self),
                old(self).fat_line_hit(x0 as int, y0 as int, x1 as int, y1 as int, half_width as int, caps),
                color_of(c as int),
            ),
            caps && old(self).clipped_canvas(old(self).dev_x(x0 as int), old(self).dev_y(y0 as int))
                ==> final(self).px(
                old(self).target as int,
                old(self).dev_x(x0 as int),
                old(self).dev_y(y0 as int),
            ) == color_of(c as int),
            caps && old(self).clipped_canvas(old(self).dev_x(x1 as int), old(self).dev_y(y1 as int))
                ==> final(self).px(
                old(self).target as int,
                old(self).dev_x(x1 as int),
                old(self).dev_y(y1 as int),
            ) == color_of(c as int),
    {
        let ghost s0 = *self;
        let col = wrap_byte(c);
        let (nx, ny) = fat_line_normal(x0, y0, x1, y1, half_width);
        let (a0, b0) = self.offset_point(x0, y0);
        let (a1, b1) = self.offset_point(x1, y1);
        self.fill_triangle(a0 - nx, b0 - ny, a1 - nx, b1 - ny, a0 + nx, b0 + ny, col);
        let ghost s1 = *self;
        self.fill_triangle(a1 - nx, b1 - ny, a0 + nx, b0 + ny, a1 + nx, b1 + ny, col);
        let ghost s2 = *self;
        proof {
            lemma_painted_stroked(&s0, &s1, span_hit(s0.clip_rect, s1.sides_left@, s1.sides_right@,
                min3(b0 - ny, b1 - ny, b0 + ny), max3(b0 - ny, b1 - ny, b0 + ny) + 1, 1), col);
            lemma_painted_stroked(&s1, &s2, span_hit(s1.clip_rect, s2.sides_left@, s2.sides_right@,
                min3(b1 - ny, b0 + ny, b1 + ny), max3(b1 - ny, b0 + ny, b1 + ny) + 1, 1), col);
            lemma_stroked_trans(&s0, &s1, &s2, col);
        }
        let ghost t1 = tri_fill_dev(s0.clip_rect, a0 - nx, b0 - ny, a1 - nx, b1 - ny, a0 + nx, b0 + ny);
        let ghost t2 = tri_fill_dev(s0.clip_rect, a1 - nx, b1 - ny, a0 + nx, b0 + ny, a1 + nx, b1 + ny);
        let ghost t12 = |a: int, b: int| t1(a, b) || t2(a, b);
        proof {
            lemma_paint_compose(&s0, &s1, &s2, t1, t2, t12, col);
        }
        if caps {
            self.circ_fill(x1, y1, half_width, c);
            let ghost s3 = *self;
            self.circ_fill(x0, y0, half_width, c);
            proof {
                let ghost c1 = s2.circ_fill_hit(x1 as int, y1 as int, half_width as int);
                let ghost t3 = |a: int, b: int| t12(a, b) || c1(a, b);
                lemma_paint_compose(&s0, &s2, &s3, t12, c1, t3, col);
                lemma_paint_compose(
                    &s0,
                    &s3,
                    self,
                    t3,
                    s3.circ_fill_hit(x0 as int, y0 as int, half_width as int),
                    s0.fat_line_hit(x0 as int, y0 as int, x1 as int, y1 as int, half_width as int, caps),
                    col,
                );
                lemma_stroked_trans(&s0, &s2, &s3, col);
                lemma_stroked_trans(&s0, &s3, self, col);
                let (p, q) = (s0.dev_x(x1 as int), s0.dev_y(y1 as int));
                if s0.clipped_canvas(p, q) {
                    assert(s3.px(s0.target as int, p, q) == col);
                    assert(s3.on_canvas(p, q));
                }
            }
        }
    }

    /// Fills device rows `y0..=y1` of device column `x` of the target.
    fn vspan(&mut self, x: i64, y0: i64, y1: i64, c: u8)
        requires
            old(self).wf(),
            0 <= x < old(self).width,
            0 <= y0,
            y1 < old(self).height,
        ensures
            final(self).wf(),
            final(self).painted(old(self), |a: int, b: int| a == x && y0 <= b <= y1, c),
            final(self).sides_left@ == old(self).sides_left@,
            final(self).sides_right@ == old(self).sides_right@,
    {
        let ghost s0 = *self;
        proof {
            lemma_paint_nothing(self, |a: int, b: int| a == x && y0 <= b < y0, c);
        }
        let mut y = y0;
        while y <= y1
            invariant
                self.wf(),
                s0 == *old(self),
                0 <= x < s0.width,
                0 <= y0 <= y,
                y <= y1 + 1 || y == y0,
                y1 < s0.height,
                self.painted(&s0, |a: int, b: int| a == x && y0 <= b < y, c),
                self.sides_left@ == s0.sides_left@,
                self.sides_right@ == s0.sides_right@,
            decreases y1 + 1 - y,
        {
            let ghost s1 = *self;
            self.put(x, y, c);
            proof {
                lemma_paint_compose(
                    &s0,
                    &s1,
                    self,
                    |a: int, b: int| a == x && y0 <= b < y,
                    |a: int, b: int| a == x && b == y,
                    |a: int, b: int| a == x && y0 <= b < y + 1,
                    c,
                );
            }
            y = y + 1;
        }
        proof {
            assert forall|a: int, b: int| s0.on_canvas(a, b) implies #[trigger] self.px(
                s0.target as int,
                a,
                b,
            ) == if a == x && y0 <= b <= y1 {
                c
            } else {
                s0.px(s0.target as int, a, b)
            } by {
                if a == x && y0 <= b <= y1 {
                    assert(b < y);
                }
            }
        }
    }

    /// The device pixels that the outline `rect` draws: the edges of the
    /// rectangle between the corners. On the canvas this is exactly the edge
    /// rows and columns that lie on it, each cut to the canvas.
    pub open spec fn rect_hit(&self, x0: int, y0: int, x1: int, y1: int) -> spec_fn(
        int,
        int,
    ) -> bool {
        let (a0, a1) = (self.dev_x(x0), self.dev_x(x1));
        let (b0, b1) = (self.dev_y(y0), self.dev_y(y1));
        let (l, r) = if a0 <= a1 { (a0, a1) } else { (a1, a0) };
        let (t, bt) = if b0 <= b1 { (b0, b1) } else { (b1, b0) };
        |a: int, b: int| ((b == t || b == bt) && l <= a <= r) || ((a == l || a == r) && t <= b <= bt)
    }

    /// Draws the outline of the rectangle between two logical corners. Each
    /// edge is drawn, cut to the canvas, when its own row or column lies on
    /// the canvas, whatever the other edges do.
    pub fn rect(&mut self, x0: i32, y0: i32, x1: i32, y1: i32, c: i32)
        requires
            old(self).wf(),
        ensures
            final(self).wf(),
            final(self).painted(
                old(self),
                old(self).rect_hit(x0 as int, y0 as int, x1 as int, y1 as int),
                color_of(c as int),
            ),
            final(self).sides_left@ == old(self).sides_left@,
            final(self).sides_right@ == old(self).sides_right@,
    {
        let ghost s0 = *self;
        let ghost hit = s0.rect_hit(x0 as int, y0 as int, x1 as int, y1 as int);
        let col = wrap_byte(c);
        let (a0, b0) = self.offset_point(x0, y0);
        let (a1, b1) = self.offset_point(x1, y1);
        let (l, t, r, bt) = crate::geometry::rect_swap(a0, b0, a1, b1);
        let w = self.width as i64;
        let h = self.height as i64;
        let cols = w > 0 && l <= w - 1 && r >= 0;
        let rows = h > 0 && t <= h - 1 && bt >= 0;
        let on_l = self.is_x_on_screen(l) && rows;
        let on_t = self.is_y_on_screen(t) && cols;
        let on_r = self.is_x_on_screen(r) && rows;
        let on_b = self.is_y_on_screen(bt) && cols;
        let (ll, lt) = self.limit_point(l, t);
        let (lr, lb) = self.limit_point(r, bt);
        let ghost h0 = |a: int, b: int| false;
        let ghost h1 = |a: int, b: int| on_t && b == t && ll <= a <= lr;
        let ghost h2 = |a: int, b: int| h1(a, b) || (on_b && b == bt && ll <= a <= lr);
        let ghost h3 = |a: int, b: int| h2(a, b) || (on_l && a == l && lt <= b <= lb);
        let ghost h4 = |a: int, b: int| h3(a, b) || (on_r && a == r && lt <= b <= lb);
        proof {
            lemma_paint_nothing(self, h0, col);
        }
        let ghost m0 = *self;
        if on_t {
            self.span(ll, lr, t, col);
            proof {
                lemma_paint_compose(&s0, &m0, self, h0, |a: int, b: int| b == t && ll <= a <= lr, h1, col);
            }
        } else {
            proof {
                lemma_paint_same(&s0, self, h0, h1, col);
            }
        }
        let ghost m1 = *self;
        if on_b {
            self.span(ll, lr, bt, col);
            proof {
                lemma_paint_compose(&s0, &m1, self, h1, |a: int, b: int| b == bt && ll <= a <= lr, h2, col);
            }
        } else {
            proof {
                lemma_paint_same(&s0, self, h1, h2, col);
            }
        }
        let ghost m2 = *self;
        if on_l {
            self.vspan(l, lt, lb, col);
            proof {
                lemma_paint_compose(&s0, &m2, self, h2, |a: int, b: int| a == l && lt <= b <= lb, h3, col);
            }
        } else {
            proof {
                lemma_paint_same(&s0, self, h2, h3, col);
            }
        }
        let ghost m3 = *self;
        if on_r {
            self.vspan(r, lt, lb, col);
            proof {
                lemma_paint_compose(&s0, &m3, self, h3, |a: int, b: int| a == r && lt <= b <= lb, h4, col);
            }
        } else {
            proof {
                lemma_paint_same(&s0, self, h3, h4, col);
            }
        }
        proof {
            assert forall|a: int, b: int| s0.on_canvas(a, b) implies #[trigger] self.px(
                s0.target as int,
                a,
                b,
            ) == if hit(a, b) {
                col
            } else {
                s0.px(s0.target as int, a, b)
            } by {
                assert(h4(a, b) == hit(a, b));
            }
        }
    }
}

/// The scaled normal component `n / sqrt(d)`, truncated toward zero: `r` has
/// the sign of `n` and its size is the largest `q` with `q * q * d <= n * n`.
pub open spec fn is_scaled_root(n: int, d: int, r: int) -> bool {
    let q = if r >= 0 { r } else { -r };
    &&& q * q * d <= n * n
    &&& n * n < (q + 1) * (q + 1) * d
    &&& r > 0 ==> n > 0
    &&& r < 0 ==> n < 0
}

/// There is one scaled root at most.
pub proof fn lemma_scaled_root_unique(n: int, d: int, r1: int, r2: int)
    requires
        d > 0,
        is_scaled_root(n, d, r1),
        is_scaled_root(n, d, r2),
    ensures
        r1 == r2,
{
    let q1 = if r1 >= 0 { r1 } else { -r1 };
    let q2 = if r2 >= 0 { r2 } else { -r2 };
    assert(q1 < q2 + 1) by (nonlinear_arith)
        requires
            q1 * q1 * d <= n * n,
            n * n < (q2 + 1) * (q2 + 1) * d,
            d > 0,
            q1 >= 0,
            q2 >= 0,
    {
        if q1 >= q2 + 1 {
            assert(q1 * q1 >= (q2 + 1) * (q2 + 1));
            assert(q1 * q1 * d >= (q2 + 1) * (q2 + 1) * d);
        }
    }
    assert(q2 < q1 + 1) by (nonlinear_arith)
        requires
            q2 * q2 * d <= n * n,
            n * n < (q1 + 1) * (q1 + 1) * d,
            d > 0,
            q1 >= 0,
            q2 >= 0,
    {
        if q2 >= q1 + 1 {
            assert(q2 * q2 >= (q1 + 1) * (q1 + 1));
            assert(q2 * q2 * d >= (q1 + 1) * (q1 + 1) * d);
        }
    }
}

/// The scaled root of `n` by `d`.
pub open spec fn scaled_root_of(n: int, d: int) -> int {
    choose|r: int| is_scaled_root(n, d, r)
}

/// The shift that `fat_line` applies to the ends of a segment: its unit
/// normal scaled by `hw`, truncated toward zero, or `(0, 0)` for a segment
/// of length zero.
pub open spec fn normal_of(x0: int, y0: int, x1: int, y1: int, hw: int) -> (int, int) {
    let (dx, dy) = (x1 - x0, y1 - y0);
    let d = dx * dx + dy * dy;
    if d == 0 {
        (0, 0)
    } else {
        (scaled_root_of(dy * hw, d), scaled_root_of(-dx * hw, d))
    }
}

/// `a * hw / sqrt(d)` truncated toward zero, for `a * a <= d`.
fn scaled_root(a: i64, hw: i32, d: u128) -> (r: i64)
    requires
        0 < d < 0x2_0000_0000_0000_0000,
        -0x1_0000_0000 < a < 0x1_0000_0000,
        (a as int) * (a as int) <= d,
    ensures
        is_scaled_root(a * hw, d as int, r as int),
        -0x8000_0000 <= r <= 0x8000_0000,
{
    let aa: u128 = if a < 0 { (-a) as u128 } else { a as u128 };
    let hh: u128 = if hw < 0 { (-(hw as i64)) as u128 } else { hw as u128 };
    assert(aa * hh < 0x8000_0000_0000_0000) by (nonlinear_arith)
        requires
            aa < 0x1_0000_0000,
            hh <= 0x8000_0000,
    ;
    let n: u128 = aa * hh;
    assert(n * n < 0x4000_0000_0000_0000_0000_0000_0000_0000) by (nonlinear_arith)
        requires
            n < 0x8000_0000_0000_0000,
    ;
    let m: u128 = n * n;
    assert(aa * aa == (a as int) * (a as int)) by (nonlinear_arith)
        requires
            aa == (if a < 0 { -a } else { a as int }),
    ;
    assert(m <= hh * hh * d) by (nonlinear_arith)
        requires
            m == n * n,
            n == aa * hh,
            aa * aa <= d,
    ;
    assert(hh * hh * d < (hh + 1) * (hh + 1) * d) by (nonlinear_arith)
        requires
            d > 0,
    ;
    assert((hh + 1) * (hh + 1) * d < 0x1_0000_0000_0000_0000_0000_0000_0000_0000) by (nonlinear_arith)
        requires
            hh <= 0x8000_0000,
            d < 0x2_0000_0000_0000_0000,
    ;
    let mut lo: u128 = 0;
    let mut hi: u128 = hh + 1;
    assert(lo * lo * d == 0) by (nonlinear_arith)
        requires
            lo == 0,
    ;
    while hi - lo > 1
        invariant
            lo < hi <= hh + 1,
            hh <= 0x8000_0000,
            0 < d < 0x2_0000_0000_0000_0000,
            (hh + 1) * (hh + 1) * d < 0x1_0000_0000_0000_0000_0000_0000_0000_0000,
            lo * lo * d <= m,
            m < hi * hi * d,
        decreases hi - lo,
    {
        let mid = lo + (hi - lo) / 2;
        assert(mid * mid * d <= (hh + 1) * (hh + 1) * d && mid * mid <= mid * mid * d)
            by (nonlinear_arith)
            requires
                mid <= hh + 1,
                d > 0,
        ;
        if mid * mid * d <= m {
            lo = mid;
        } else {
            hi = mid;
        }
    }
    let q = lo as i64;
    proof {
        let ghost ai = a as int;
        let ghost hi2 = hw as int;
        assert(ai * hi2 * (ai * hi2) == aa * hh * (aa * hh)) by (nonlinear_arith)
            requires
                aa == (if ai < 0 { -ai } else { ai }),
                hh == (if hi2 < 0 { -hi2 } else { hi2 }),
        ;
        assert(q > 0 ==> m > 0) by (nonlinear_arith)
            requires
                q == lo,
                lo * lo * d <= m,
                d > 0,
        ;
        assert(m > 0 ==> aa > 0 && hh > 0) by (nonlinear_arith)
            requires
                m == n * n,
                n == aa * hh,
        ;
        assert(ai * hi2 > 0 <==> ((ai > 0 && hi2 > 0) || (ai < 0 && hi2 < 0))) by (nonlinear_arith);
        assert(ai * hi2 < 0 <==> ((ai > 0 && hi2 < 0) || (ai < 0 && hi2 > 0))) by (nonlinear_arith);
    }
    if (a < 0) != (hw < 0) {
        -q
    } else {
        q
    }
}

/// The unit normal of the segment from `(x0, y0)` to `(x1, y1)`, turned a
/// quarter turn clockwise and scaled by `half_width`, each component
/// truncated toward zero; `(0, 0)` for a segment of length zero.
pub fn fat_line_normal(x0: i32, y0: i32, x1: i32, y1: i32, half_width: i32) -> (r: (i64, i64))
    ensures
        ({
            let (dx, dy) = (x1 - x0, y1 - y0);
            let d = dx * dx + dy * dy;
            &&& d == 0 ==> r == (0i64, 0i64)
            &&& d > 0 ==> is_scaled_root(dy * half_width, d, r.0 as int)
            &&& d > 0 ==> is_scaled_root(-dx * half_width, d, r.1 as int)
        }),
        -0x8000_0000 <= r.0 <= 0x8000_0000,
        -0x8000_0000 <= r.1 <= 0x8000_0000,
        (r.0 as int, r.1 as int) == normal_of(x0 as int, y0 as int, x1 as int, y1 as int, half_width as int),
{
    let dx = x1 as i64 - x0 as i64;
    let dy = y1 as i64 - y0 as i64;
    assert(dx * dx < 0x1_0000_0000_0000_0000 && dy * dy < 0x1_0000_0000_0000_0000 && dx * dx >= 0
        && dy * dy >= 0) by (nonlinear_arith)
        requires
            -0x1_0000_0000 < dx < 0x1_0000_0000,
            -0x1_0000_0000 < dy < 0x1_0000_0000,
    ;
    let d: u128 = ((dx as i128) * (dx as i128) + (dy as i128) * (dy as i128)) as u128;
    if d == 0 {
        return (0, 0);
    }
    assert((-dx) * (-dx) == dx * dx) by (nonlinear_arith);
    let nx = scaled_root(dy, half_width, d);
    let ny = scaled_root(-dx, half_width, d);
    proof {
        let ghost (n0, n1) = (dy * half_width, -dx * half_width);
        assert(is_scaled_root(n0, d as int, scaled_root_of(n0, d as int)));
        lemma_scaled_root_unique(n0, d as int, nx as int, scaled_root_of(n0, d as int));
        assert(is_scaled_root(n1, d as int, scaled_root_of(n1, d as int)));
        lemma_scaled_root_unique(n1, d as int, ny as int, scaled_root_of(n1, d as int));
    }
    (nx, ny)
}

pub open spec fn min3(a: int, b: int, c: int) -> int {
    if a < b {
        if a < c { a } else { c }
    } else {
        if b < c { b } else { c }
    }
}

pub open spec fn max3(a: int, b: int, c: int) -> int {
    if a > b {
        if a > c { a } else { c }
    } else {
        if b > c { b } else { c }
    }
}

} // verus!
