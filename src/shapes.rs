//! Scan-converted primitives: Bresenham lines and circles, stroked and
//! filled, triangles and fans. Outlines go either straight to the target
//! or into the per-scanline span buffer, which a fill then turns into spans.
use vstd::prelude::*;
use crate::engine::{lemma_paint_compose, lemma_paint_nothing, lemma_paint_same, State, MAX_SCREEN_SIZE};

verus! {

/// Where the points of an outline go.
#[derive(Clone, Copy, Debug, PartialEq, Eq, Structural)]
pub enum PixelSink {
    /// Straight onto the target surface.
    Write,
    /// Into the span buffer: each point widens its scanline's span.
    Span,
}

impl State {
    /// Every canvas pixel of the target is either unchanged or colour `c`, and
    /// nothing but the target's canvas changed.
    pub open spec fn stroked(&self, o: &State, c: u8) -> bool {
        &&& self.same_settings(o)
        &&& self.only_surface_changed(o, o.target as int)
        &&& forall|x: int, y: int|
            o.on_canvas(x, y) ==> {
                let v = #[trigger] self.px(o.target as int, x, y);
                v == o.px(o.target as int, x, y) || v == c
            }
    }

    /// The span buffer only widened: each span still holds what it held.
    pub open spec fn spans_widened(&self, o: &State) -> bool {
        forall|y: int|
            0 <= y < MAX_SCREEN_SIZE ==> #[trigger] self.sides_left@[y] <= o.sides_left@[y]
                && self.sides_right@[y] >= o.sides_right@[y]
    }

    /// Device point `(x, y)` has been drawn: with `Write`, a canvas pixel
    /// holds `c`; with `Span`, a point on a canvas row lies in that row's span.
    pub open spec fn marked(&self, sink: PixelSink, x: int, y: int, c: u8) -> bool {
        match sink {
            PixelSink::Write => self.on_canvas(x, y) ==> self.px(self.target as int, x, y) == c,
            PixelSink::Span => 0 <= y < self.span_rows() ==> self.sides_left@[y] <= x
                <= self.sides_right@[y],
        }
    }

    /// What an outline traced into `sink` may change.
    pub open spec fn traced(&self, o: &State, sink: PixelSink, c: u8) -> bool {
        &&& self.wf()
        &&& match sink {
            PixelSink::Write => {
                &&& self.stroked(o, c)
                &&& self.sides_left@ == o.sides_left@
                &&& self.sides_right@ == o.sides_right@
            },
            PixelSink::Span => {
                &&& *self == (State {
                    sides_left: self.sides_left,
                    sides_right: self.sides_right,
                    ..*o
                })
                &&& self.sides_left@.len() == o.sides_left@.len()
                &&& self.sides_right@.len() == o.sides_right@.len()
                &&& self.spans_widened(o)
            },
        }
    }

    /// Records device point `(x, y)` in `sink`.
    fn plot(&mut self, sink: PixelSink, x: i64, y: i64, c: u8)
        requires
            old(self).wf(),
        ensures
            final(self).traced(old(self), sink, c),
            final(self).marked(sink, x as int, y as int, c),
            sink == PixelSink::Write ==> final(self).painted(
                old(self),
                |a: int, b: int| a == x && b == y,
                c,
            ),
            sink == PixelSink::Span ==> spans_traced(
                final(self),
                old(self).sides_left@,
                old(self).sides_right@,
                old(self).span_rows(),
                |a: int, b: int| a == x && b == y,
            ),
    {
        match sink {
            PixelSink::Write => {
                if self.is_point_on_screen(x, y) {
                    self.put(x, y, c);
                } else {
                    proof {
                        lemma_paint_nothing(self, |a: int, b: int| a == x && b == y, c);
                    }
                }
            },
            PixelSink::Span => {
                self.set_side_pixel(x, y);
            },
        }
    }

    /// Widens the span of device row `y` to take in column `x`.
    pub fn set_side_pixel(&mut self, x: i64, y: i64)
        requires
            old(self).wf(),
        ensures
            final(self).wf(),
            final(self).traced(old(self), PixelSink::Span, 0),
            0 <= y < old(self).span_rows() ==> final(self).sides_left@ == old(self).sides_left@.update(
                y as int,
                if x < old(self).sides_left@[y as int] { x } else { old(self).sides_left@[y as int] },
            ) && final(self).sides_right@ == old(self).sides_right@.update(
                y as int,
                if x > old(self).sides_right@[y as int] { x } else { old(self).sides_right@[y as int] },
            ),
            !(0 <= y < old(self).span_rows()) ==> *final(self) == *old(self),
    {
        if y >= 0 && y < self.height as i64 && y < MAX_SCREEN_SIZE as i64 {
            let yi = y as usize;
            if x < self.sides_left[yi] {
                self.sides_left.set(yi, x);
            }
            if x > self.sides_right[yi] {
                self.sides_right.set(yi, x);
            }
        }
    }

    /// Empties the span of every canvas row: left at the canvas width, right at -1.
    pub fn init_sides_buffer(&mut self)
        requires
            old(self).wf(),
        ensures
            final(self).wf(),
            *final(self) == (State {
                sides_left: final(self).sides_left,
                sides_right: final(self).sides_right,
                ..*old(self)
            }),
            final(self).sides_left@.len() == MAX_SCREEN_SIZE,
            final(self).sides_right@.len() == MAX_SCREEN_SIZE,
            forall|y: int|
                0 <= y < old(self).span_rows() ==> #[trigger] final(self).sides_left@[y] == old(
                    self,
                ).width,
            forall|y: int| 0 <= y < old(self).span_rows() ==> #[trigger] final(self).sides_right@[y] == -1,
    {
        let width = self.width as i64;
        let rows: usize = if self.height < MAX_SCREEN_SIZE { self.height } else { MAX_SCREEN_SIZE };
        let mut y: usize = 0;
        while y < rows
            invariant
                rows == old(self).span_rows(),
                self.wf(),
                *self == (State {
                    sides_left: self.sides_left,
                    sides_right: self.sides_right,
                    ..*old(self)
                }),
                width as int == old(self).width as int,
                y <= rows,
                forall|k: int| 0 <= k < y ==> #[trigger] self.sides_left@[k] == width,
                forall|k: int| 0 <= k < y ==> #[trigger] self.sides_right@[k] == -1,
            decreases rows - y,
        {
            self.sides_left.set(y, width);
            self.sides_right.set(y, -1);
            y = y + 1;
        }
        assert forall|k: int| 0 <= k < old(self).span_rows() implies #[trigger] self.sides_left@[k]
            == old(self).width by {
            assert(0 <= k < y);
        }
        assert forall|k: int| 0 <= k < old(self).span_rows() implies #[trigger] self.sides_right@[k]
            == -1 by {
            assert(0 <= k < y);
        }
    }

    /// Traces the segment between device points `(x, y)` and `(ex, ey)` into
    /// `sink` with Bresenham's algorithm: one point per step, both end points included.
    pub(crate) fn trace_line(&mut self, x: i64, y: i64, ex: i64, ey: i64, c: u8, sink: PixelSink)
        requires
            old(self).wf(),
            coord_ok(x as int),
            coord_ok(y as int),
            coord_ok(ex as int),
            coord_ok(ey as int),
        ensures
            final(self).traced(old(self), sink, c),
            final(self).marked(sink, x as int, y as int, c),
            final(self).marked(sink, ex as int, ey as int, c),
            sink == PixelSink::Write ==> final(self).painted(
                old(self),
                |a: int, b: int| line_hit(x as int, y as int, ex as int, ey as int, a, b),
                c,
            ),
            sink == PixelSink::Span ==> spans_traced(
                final(self),
                old(self).sides_left@,
                old(self).sides_right@,
                old(self).span_rows(),
                |a: int, b: int| line_hit(x as int, y as int, ex as int, ey as int, a, b),
            ),
    {
        let ghost s0 = *self;
        let ghost (gx, gy, gex, gey) = (x as int, y as int, ex as int, ey as int);
        let mut x = x;
        let mut y = y;
        let dx: i64 = if ex > x { ex - x } else { x - ex };
        let sx: i64 = if x < ex { 1 } else { -1 };
        let dy: i64 = if ey > y { ey - y } else { y - ey };
        let sy: i64 = if y < ey { 1 } else { -1 };
        let mut err: i64 = if dx > dy { dx / 2 } else { -(dy / 2) };
        let budget: i64 = dx + dy;
        let mut steps: i64 = 0;
        let ghost (xs, ys) = (x, y);
        proof {
            lemma_traced_refl(self, sink, c);
        }
        self.plot(sink, x, y, c);
        proof {
            if sink == PixelSink::Write {
                lemma_paint_same(
                    &s0,
                    self,
                    |a: int, b: int| a == x && b == y,
                    |a: int, b: int| walk_hit(gx, gy, gex, gey, 0, a, b),
                    c,
                );
            } else {
                lemma_spans_same(
                    self,
                    s0.sides_left@,
                    s0.sides_right@,
                    s0.span_rows(),
                    |a: int, b: int| a == x && b == y,
                    |a: int, b: int| walk_hit(gx, gy, gex, gey, 0, a, b),
                );
            }
        }
        loop
            invariant
                s0 == *old(self),
                gx == xs && gy == ys && gex == ex && gey == ey,
                dx == gap(gx, gex) && dy == gap(gy, gey),
                sx == dir(gx, gex) && sy == dir(gy, gey),
                (x as int, y as int, err as int) == walk(gx, gy, gex, gey, steps as nat),
                walk_stop(gx, gy, gex, gey, 0) == walk_stop(gx, gy, gex, gey, steps as nat),
                sink == PixelSink::Write ==> self.painted(
                    &s0,
                    |a: int, b: int| walk_hit(gx, gy, gex, gey, steps as nat, a, b),
                    c,
                ),
                sink == PixelSink::Span ==> spans_traced(
                    self,
                    s0.sides_left@,
                    s0.sides_right@,
                    s0.span_rows(),
                    |a: int, b: int| walk_hit(gx, gy, gex, gey, steps as nat, a, b),
                ),
                self.traced(&s0, sink, c),
                self.marked(sink, xs as int, ys as int, c),
                0 <= dx <= 0x4_0000_0000,
                0 <= dy <= 0x4_0000_0000,
                budget == dx + dy,
                coord_ok(xs as int),
                coord_ok(ys as int),
                sx == 1 || sx == -1,
                sy == 1 || sy == -1,
                0 <= steps <= budget,
                xs - steps <= x <= xs + steps,
                ys - steps <= y <= ys + steps,
                -dy <= err <= dx,
            ensures
                (x == ex && y == ey) || steps >= budget,
            decreases budget - steps,
        {
            if (x == ex && y == ey) || steps >= budget {
                break;
            }
            let e2 = err;
            if e2 > -dx {
                err = err - dy;
                x = x + sx;
            }
            if e2 < dy {
                err = err + dx;
                y = y + sy;
            }
            steps = steps + 1;
            let ghost s1 = *self;
            self.plot(sink, x, y, c);
            proof {
                lemma_traced_trans(&s0, &s1, self, sink, c);
                lemma_marked_kept(&s1, self, sink, xs as int, ys as int, c);
                if sink == PixelSink::Write {
                    lemma_paint_compose(
                        &s0,
                        &s1,
                        self,
                        |a: int, b: int| walk_hit(gx, gy, gex, gey, (steps - 1) as nat, a, b),
                        |a: int, b: int| a == x && b == y,
                        |a: int, b: int| walk_hit(gx, gy, gex, gey, steps as nat, a, b),
                        c,
                    );
                } else {
                    lemma_spans_step(
                        &s1,
                        self,
                        s0.sides_left@,
                        s0.sides_right@,
                        s0.span_rows(),
                        |a: int, b: int| walk_hit(gx, gy, gex, gey, (steps - 1) as nat, a, b),
                        |a: int, b: int| a == x && b == y,
                        |a: int, b: int| walk_hit(gx, gy, gex, gey, steps as nat, a, b),
                    );
                }
            }
        }
        // The walk stops on the end point; plotting it once more changes
        // nothing and makes that explicit.
        let ghost s1 = *self;
        self.plot(sink, ex, ey, c);
        proof {
            lemma_traced_trans(&s0, &s1, self, sink, c);
            lemma_marked_kept(&s1, self, sink, xs as int, ys as int, c);
            if sink == PixelSink::Write {
                assert(walk_stop(gx, gy, gex, gey, steps as nat) == steps);
                lemma_paint_compose(
                    &s0,
                    &s1,
                    self,
                    |a: int, b: int| walk_hit(gx, gy, gex, gey, steps as nat, a, b),
                    |a: int, b: int| a == ex && b == ey,
                    |a: int, b: int| line_hit(gx, gy, gex, gey, a, b),
                    c,
                );
            } else {
                assert(walk_stop(gx, gy, gex, gey, steps as nat) == steps);
                lemma_spans_step(
                    &s1,
                    self,
                    s0.sides_left@,
                    s0.sides_right@,
                    s0.span_rows(),
                    |a: int, b: int| walk_hit(gx, gy, gex, gey, steps as nat, a, b),
                    |a: int, b: int| a == ex && b == ey,
                    |a: int, b: int| line_hit(gx, gy, gex, gey, a, b),
                );
            }
        }
    }

    /// Traces the circle of radius `radius` about logical `(xm, ym)` into
    /// `sink` with the midpoint algorithm, four symmetric points per step;
    /// nothing for a radius below 1.
    pub fn circ_with_pixel_func(&mut self, xm: i32, ym: i32, radius: i32, c: u8, sink: PixelSink)
        requires
            old(self).wf(),
        ensures
            final(self).traced(old(self), sink, c),
            radius < 1 ==> *final(self) == *old(self),
            radius >= 1 ==> final(self).circle_marked(
                sink,
                old(self).dev_x(xm as int),
                old(self).dev_y(ym as int),
                radius as int,
                c,
            ),
            radius >= 1 && sink == PixelSink::Write ==> final(self).painted(
                old(self),
                |a: int, b: int|
                    ring_hit(
                        old(self).dev_x(xm as int),
                        old(self).dev_y(ym as int),
                        radius as int,
                        a,
                        b,
                    ),
                c,
            ),
            radius >= 1 && sink == PixelSink::Span ==> spans_traced(
                final(self),
                old(self).sides_left@,
                old(self).sides_right@,
                old(self).span_rows(),
                |a: int, b: int|
                    ring_hit(
                        old(self).dev_x(xm as int),
                        old(self).dev_y(ym as int),
                        radius as int,
                        a,
                        b,
                    ),
            ),
    {
        let (cx, cy) = self.offset_point(xm, ym);
        self.trace_circle(cx, cy, radius, c, sink);
    }

    /// The four points of the circle about `(cx, cy)` on its axes are drawn.
    pub open spec fn circle_marked(&self, sink: PixelSink, cx: int, cy: int, r: int, c: u8) -> bool {
        &&& self.marked(sink, cx + r, cy, c)
        &&& self.marked(sink, cx - r, cy, c)
        &&& self.marked(sink, cx, cy + r, c)
        &&& self.marked(sink, cx, cy - r, c)
    }

    /// Traces the circle of radius `radius` about device point `(cx, cy)`.
    pub(crate) fn trace_circle(&mut self, cx: i64, cy: i64, radius: i32, c: u8, sink: PixelSink)
        requires
            old(self).wf(),
            coord_ok(cx as int),
            coord_ok(cy as int),
        ensures
            final(self).traced(old(self), sink, c),
            radius < 1 ==> *final(self) == *old(self),
            radius >= 1 ==> final(self).circle_marked(sink, cx as int, cy as int, radius as int, c),
            radius >= 1 && sink == PixelSink::Write ==> final(self).painted(
                old(self),
                |a: int, b: int| ring_hit(cx as int, cy as int, radius as int, a, b),
                c,
            ),
            radius >= 1 && sink == PixelSink::Span ==> spans_traced(
                final(self),
                old(self).sides_left@,
                old(self).sides_right@,
                old(self).span_rows(),
                |a: int, b: int| ring_hit(cx as int, cy as int, radius as int, a, b),
            ),
    {
        if radius < 1 {
            return;
        }
        let ghost s0 = *self;
        let ghost (gx, gy, gr) = (cx as int, cy as int, radius as int);
        let rr = radius as i64;
        let mut x: i64 = -rr;
        let mut y: i64 = 0;
        let mut err: i128 = 2 - 2 * (rr as i128);
        let budget: i64 = 4 * rr + 4;
        let mut steps: i64 = 0;
        proof {
            lemma_traced_refl(self, sink, c);
            if sink == PixelSink::Write {
                lemma_paint_nothing(self, |a: int, b: int| ring_points(gx, gy, gr, 0, a, b), c);
            }
        }
        loop
            invariant_except_break
                steps < budget,
                x < 0,
            invariant
                s0 == *old(self),
                gx == cx && gy == cy && gr == rr,
                (x as int, y as int, err as int) == ring_walk(gr, steps as nat),
                steps == 0 || ring_stop(gr, 1) == ring_stop(gr, steps as nat),
                sink == PixelSink::Write ==> self.painted(
                    &s0,
                    |a: int, b: int| ring_points(gx, gy, gr, steps as nat, a, b),
                    c,
                ),
                sink == PixelSink::Span ==> spans_traced(
                    self,
                    s0.sides_left@,
                    s0.sides_right@,
                    s0.span_rows(),
                    |a: int, b: int| ring_points(gx, gy, gr, steps as nat, a, b),
                ),
                self.traced(&s0, sink, c),
                1 <= rr <= 0x8000_0000,
                budget == 4 * rr + 4,
                coord_ok(cx as int),
                coord_ok(cy as int),
                0 <= steps <= budget,
                -rr <= x <= -rr + steps,
                0 <= y <= steps,
                -0x10_0000_0000 * steps - 0x2_0000_0000 <= err <= 0x10_0000_0000 * steps
                    + 0x2_0000_0000,
                steps > 0 ==> {
                    &&& self.marked(sink, cx as int + rr as int, cy as int, c)
                    &&& self.marked(sink, cx as int - rr as int, cy as int, c)
                    &&& self.marked(sink, cx as int, cy as int + rr as int, c)
                    &&& self.marked(sink, cx as int, cy as int - rr as int, c)
                },
                steps == 0 ==> x == -rr && y == 0,
            ensures
                steps > 0,
                x >= 0 || steps >= budget,
            decreases budget - steps,
        {
            let ghost s1 = *self;
            self.plot(sink, cx - x, cy + y, c);
            let ghost s2 = *self;
            self.plot(sink, cx - y, cy - x, c);
            let ghost s3 = *self;
            self.plot(sink, cx + x, cy - y, c);
            let ghost s4 = *self;
            self.plot(sink, cx + y, cy + x, c);
            proof {
                if sink == PixelSink::Write {
                    let ghost k = steps as nat;
                    let ghost h0 = |a: int, b: int| ring_points(gx, gy, gr, k, a, b);
                    let ghost h1 = |a: int, b: int| h0(a, b) || (a == cx - x && b == cy + y);
                    let ghost h2 = |a: int, b: int| h1(a, b) || (a == cx - y && b == cy - x);
                    let ghost h3 = |a: int, b: int| h2(a, b) || (a == cx + x && b == cy - y);
                    let ghost h4 = |a: int, b: int| h3(a, b) || (a == cx + y && b == cy + x);
                    lemma_paint_compose(&s0, &s1, &s2, h0, |a: int, b: int| a == cx - x && b == cy + y, h1, c);
                    lemma_paint_compose(&s0, &s2, &s3, h1, |a: int, b: int| a == cx - y && b == cy - x, h2, c);
                    lemma_paint_compose(&s0, &s3, &s4, h2, |a: int, b: int| a == cx + x && b == cy - y, h3, c);
                    lemma_paint_compose(&s0, &s4, self, h3, |a: int, b: int| a == cx + y && b == cy + x, h4, c);
                    lemma_paint_same(&s0, self, h4, |a: int, b: int| ring_points(gx, gy, gr, k + 1, a, b), c);
                } else {
                    let ghost k = steps as nat;
                    let ghost (l0, r0, hh) = (s0.sides_left@, s0.sides_right@, s0.span_rows());
                    let ghost h0 = |a: int, b: int| ring_points(gx, gy, gr, k, a, b);
                    let ghost h1 = |a: int, b: int| h0(a, b) || (a == cx - x && b == cy + y);
                    let ghost h2 = |a: int, b: int| h1(a, b) || (a == cx - y && b == cy - x);
                    let ghost h3 = |a: int, b: int| h2(a, b) || (a == cx + x && b == cy - y);
                    let ghost h4 = |a: int, b: int| h3(a, b) || (a == cx + y && b == cy + x);
                    lemma_spans_step(&s1, &s2, l0, r0, hh, h0, |a: int, b: int| a == cx - x && b == cy + y, h1);
                    lemma_spans_step(&s2, &s3, l0, r0, hh, h1, |a: int, b: int| a == cx - y && b == cy - x, h2);
                    lemma_spans_step(&s3, &s4, l0, r0, hh, h2, |a: int, b: int| a == cx + x && b == cy - y, h3);
                    lemma_spans_step(&s4, self, l0, r0, hh, h3, |a: int, b: int| a == cx + y && b == cy + x, h4);
                    lemma_spans_same(self, l0, r0, hh, h4, |a: int, b: int| ring_points(gx, gy, gr, k + 1, a, b));
                }
                lemma_traced_trans(&s0, &s1, &s2, sink, c);
                lemma_traced_trans(&s0, &s2, &s3, sink, c);
                lemma_traced_trans(&s0, &s3, &s4, sink, c);
                lemma_traced_trans(&s0, &s4, self, sink, c);
                lemma_marked_kept(&s2, &s3, sink, cx as int - x as int, cy as int + y as int, c);
                lemma_marked_kept(&s3, &s4, sink, cx as int - x as int, cy as int + y as int, c);
                lemma_marked_kept(&s4, self, sink, cx as int - x as int, cy as int + y as int, c);
                lemma_marked_kept(&s3, &s4, sink, cx as int - y as int, cy as int - x as int, c);
                lemma_marked_kept(&s4, self, sink, cx as int - y as int, cy as int - x as int, c);
                lemma_marked_kept(&s4, self, sink, cx as int + x as int, cy as int - y as int, c);
                if steps > 0 {
                    lemma_marked_kept(&s1, &s2, sink, cx as int + rr as int, cy as int, c);
                    lemma_marked_kept(&s2, &s3, sink, cx as int + rr as int, cy as int, c);
                    lemma_marked_kept(&s3, &s4, sink, cx as int + rr as int, cy as int, c);
                    lemma_marked_kept(&s4, self, sink, cx as int + rr as int, cy as int, c);
                    lemma_marked_kept(&s1, &s2, sink, cx as int - rr as int, cy as int, c);
                    lemma_marked_kept(&s2, &s3, sink, cx as int - rr as int, cy as int, c);
                    lemma_marked_kept(&s3, &s4, sink, cx as int - rr as int, cy as int, c);
                    lemma_marked_kept(&s4, self, sink, cx as int - rr as int, cy as int, c);
                    lemma_marked_kept(&s1, &s2, sink, cx as int, cy as int + rr as int, c);
                    lemma_marked_kept(&s2, &s3, sink, cx as int, cy as int + rr as int, c);
                    lemma_marked_kept(&s3, &s4, sink, cx as int, cy as int + rr as int, c);
                    lemma_marked_kept(&s4, self, sink, cx as int, cy as int + rr as int, c);
                    lemma_marked_kept(&s1, &s2, sink, cx as int, cy as int - rr as int, c);
                    lemma_marked_kept(&s2, &s3, sink, cx as int, cy as int - rr as int, c);
                    lemma_marked_kept(&s3, &s4, sink, cx as int, cy as int - rr as int, c);
                    lemma_marked_kept(&s4, self, sink, cx as int, cy as int - rr as int, c);
                }
            }
            let r = err;
            if r <= y as i128 {
                y = y + 1;
                err = err + (y as i128) * 2 + 1;
            }
            if r > x as i128 || err > y as i128 {
                x = x + 1;
                err = err + (x as i128) * 2 + 1;
            }
            steps = steps + 1;
            if x >= 0 || steps >= budget {
                break;
            }
        }
        proof {
            if sink == PixelSink::Write {
                assert(ring_stop(gr, steps as nat) == steps);
                lemma_paint_same(
                    &s0,
                    self,
                    |a: int, b: int| ring_points(gx, gy, gr, steps as nat, a, b),
                    |a: int, b: int| ring_hit(gx, gy, gr, a, b),
                    c,
                );
            } else {
                assert(ring_stop(gr, steps as nat) == steps);
                lemma_spans_same(
                    self,
                    s0.sides_left@,
                    s0.sides_right@,
                    s0.span_rows(),
                    |a: int, b: int| ring_points(gx, gy, gr, steps as nat, a, b),
                    |a: int, b: int| ring_hit(gx, gy, gr, a, b),
                );
            }
        }
    }
}

/// Distance between two coordinates.
pub open spec fn gap(a0: int, a1: int) -> int {
    if a1 > a0 {
        a1 - a0
    } else {
        a0 - a1
    }
}

/// Step direction from one coordinate towards another.
pub open spec fn dir(a0: int, a1: int) -> int {
    if a0 < a1 {
        1
    } else {
        -1
    }
}

/// Bresenham's walk from `(x0, y0)` towards `(x1, y1)`: position and error
/// term after `k` steps.
pub open spec fn walk(x0: int, y0: int, x1: int, y1: int, k: nat) -> (int, int, int)
    decreases k,
{
    let dx = gap(x0, x1);
    let dy = gap(y0, y1);
    if k == 0 {
        (x0, y0, if dx > dy { dx / 2 } else { -(dy / 2) })
    } else {
        let (x, y, e) = walk(x0, y0, x1, y1, (k - 1) as nat);
        let (x2, e1) = if e > -dx { (x + dir(x0, x1), e - dy) } else { (x, e) };
        let (y2, e2) = if e < dy { (y + dir(y0, y1), e1 + dx) } else { (y, e1) };
        (x2, y2, e2)
    }
}

/// The step at or after `k` where the walk stops: on the end point, or
/// after as many steps as the two distances together.
pub open spec fn walk_stop(x0: int, y0: int, x1: int, y1: int, k: nat) -> nat
    decreases gap(x0, x1) + gap(y0, y1) - k,
{
    let p = walk(x0, y0, x1, y1, k);
    if (p.0 == x1 && p.1 == y1) || k >= gap(x0, x1) + gap(y0, y1) {
        k
    } else {
        walk_stop(x0, y0, x1, y1, k + 1)
    }
}

/// `(a, b)` is one of the first `n + 1` points of the walk.
pub open spec fn walk_hit(x0: int, y0: int, x1: int, y1: int, n: nat, a: int, b: int) -> bool
    decreases n,
{
    let p = walk(x0, y0, x1, y1, n);
    (p.0 == a && p.1 == b) || (n > 0 && walk_hit(x0, y0, x1, y1, (n - 1) as nat, a, b))
}

/// The points of the segment from `(x0, y0)` to `(x1, y1)`: those of the
/// walk up to where it stops, and the end point.
pub open spec fn line_hit(x0: int, y0: int, x1: int, y1: int, a: int, b: int) -> bool {
    walk_hit(x0, y0, x1, y1, walk_stop(x0, y0, x1, y1, 0), a, b) || (a == x1 && b == y1)
}

/// The midpoint circle walk of radius `r`: offsets `x`, `y` from the centre
/// and the error term after `k` steps.
pub open spec fn ring_walk(r: int, k: nat) -> (int, int, int)
    decreases k,
{
    if k == 0 {
        (-r, 0, 2 - 2 * r)
    } else {
        let (x, y, e) = ring_walk(r, (k - 1) as nat);
        let (y2, e1) = if e <= y { (y + 1, e + (y + 1) * 2 + 1) } else { (y, e) };
        let (x2, e2) = if e > x || e1 > y2 { (x + 1, e1 + (x + 1) * 2 + 1) } else { (x, e1) };
        (x2, y2, e2)
    }
}

/// How many states of the walk from `k` on are drawn: up to the first whose
/// `x` is no longer negative, and at most `4 * r + 4`.
pub open spec fn ring_stop(r: int, k: nat) -> nat
    decreases 4 * r + 4 - k,
{
    if ring_walk(r, k).0 >= 0 || k >= 4 * r + 4 {
        k
    } else {
        ring_stop(r, k + 1)
    }
}

/// `(a, b)` is one of the four symmetric points of one of the first `n`
/// states of the walk about `(cx, cy)`.
pub open spec fn ring_points(cx: int, cy: int, r: int, n: nat, a: int, b: int) -> bool
    decreases n,
{
    if n == 0 {
        false
    } else {
        let (x, y, e) = ring_walk(r, (n - 1) as nat);
        ring_points(cx, cy, r, (n - 1) as nat, a, b) || (a == cx - x && b == cy + y) || (a == cx - y
            && b == cy - x) || (a == cx + x && b == cy - y) || (a == cx + y && b == cy + x)
    }
}

/// The points of the circle of radius `r` about `(cx, cy)`.
pub open spec fn ring_hit(cx: int, cy: int, r: int, a: int, b: int) -> bool {
    ring_points(cx, cy, r, ring_stop(r, 1), a, b)
}

/// Device coordinates that the tracers take: well inside `i64`.
pub open spec fn coord_ok(v: int) -> bool {
    -0x2_0000_0000 <= v <= 0x2_0000_0000
}

/// Every column `a` with `hit(a, y)` lies in the span of row `y`, and each
/// end of that span is either where it started (`left0[y]`, `right0[y]`) or
/// such a column: the span runs from the least to the greatest of them.
pub open spec fn spans_traced(
    s: &State,
    left0: Seq<i64>,
    right0: Seq<i64>,
    h: int,
    hit: spec_fn(int, int) -> bool,
) -> bool {
    &&& forall|a: int, y: int|
        0 <= y < h && #[trigger] hit(a, y) ==> s.sides_left@[y] <= a <= s.sides_right@[y]
    &&& forall|y: int|
        0 <= y < h ==> (#[trigger] s.sides_left@[y] == left0[y] || hit(s.sides_left@[y] as int, y))
            && s.sides_left@[y] <= left0[y]
    &&& forall|y: int|
        0 <= y < h ==> (#[trigger] s.sides_right@[y] == right0[y] || hit(s.sides_right@[y] as int, y))
            && s.sides_right@[y] >= right0[y]
}

/// Spans traced with `h1` and then with `h2` are traced with their union.
pub proof fn lemma_spans_step(
    s1: &State,
    s2: &State,
    left0: Seq<i64>,
    right0: Seq<i64>,
    h: int,
    h1: spec_fn(int, int) -> bool,
    h2: spec_fn(int, int) -> bool,
    h3: spec_fn(int, int) -> bool,
)
    requires
        spans_traced(s1, left0, right0, h, h1),
        spans_traced(s2, s1.sides_left@, s1.sides_right@, h, h2),
        forall|a: int, b: int| #[trigger] h3(a, b) == (h1(a, b) || h2(a, b)),
    ensures
        spans_traced(s2, left0, right0, h, h3),
{
    assert forall|a: int, y: int| 0 <= y < h && #[trigger] h3(a, y) implies s2.sides_left@[y] <= a
        <= s2.sides_right@[y] by {
        if h1(a, y) {
            assert(s2.sides_left@[y] <= s1.sides_left@[y]);
            assert(s2.sides_right@[y] >= s1.sides_right@[y]);
        } else {
            assert(h2(a, y));
        }
    }
    assert forall|y: int| 0 <= y < h implies (#[trigger] s2.sides_left@[y] == left0[y] || h3(
        s2.sides_left@[y] as int,
        y,
    )) && s2.sides_left@[y] <= left0[y] by {
        assert(s1.sides_left@[y] == left0[y] || h1(s1.sides_left@[y] as int, y));
        assert(h3(s1.sides_left@[y] as int, y) == (h1(s1.sides_left@[y] as int, y) || h2(s1.sides_left@[y] as int, y)));
        assert(h3(s2.sides_left@[y] as int, y) == (h1(s2.sides_left@[y] as int, y) || h2(s2.sides_left@[y] as int, y)));
    }
    assert forall|y: int| 0 <= y < h implies (#[trigger] s2.sides_right@[y] == right0[y] || h3(
        s2.sides_right@[y] as int,
        y,
    )) && s2.sides_right@[y] >= right0[y] by {
        assert(s1.sides_right@[y] == right0[y] || h1(s1.sides_right@[y] as int, y));
        assert(h3(s1.sides_right@[y] as int, y) == (h1(s1.sides_right@[y] as int, y) || h2(s1.sides_right@[y] as int, y)));
        assert(h3(s2.sides_right@[y] as int, y) == (h1(s2.sides_right@[y] as int, y) || h2(s2.sides_right@[y] as int, y)));
    }
}

/// Spans traced with a test stay traced with any test that agrees with it.
pub proof fn lemma_spans_same(
    s: &State,
    left0: Seq<i64>,
    right0: Seq<i64>,
    h: int,
    h1: spec_fn(int, int) -> bool,
    h2: spec_fn(int, int) -> bool,
)
    requires
        spans_traced(s, left0, right0, h, h1),
        forall|a: int, b: int| #[trigger] h2(a, b) == h1(a, b),
    ensures
        spans_traced(s, left0, right0, h, h2),
{
    assert forall|a: int, y: int| 0 <= y < h && #[trigger] h2(a, y) implies s.sides_left@[y] <= a
        <= s.sides_right@[y] by {
        assert(h1(a, y));
    }
    assert forall|y: int| 0 <= y < h implies (#[trigger] s.sides_left@[y] == left0[y] || h2(
        s.sides_left@[y] as int,
        y,
    )) && s.sides_left@[y] <= left0[y] by {
        assert(h2(s.sides_left@[y] as int, y) == h1(s.sides_left@[y] as int, y));
    }
    assert forall|y: int| 0 <= y < h implies (#[trigger] s.sides_right@[y] == right0[y] || h2(
        s.sides_right@[y] as int,
        y,
    )) && s.sides_right@[y] >= right0[y] by {
        assert(h2(s.sides_right@[y] as int, y) == h1(s.sides_right@[y] as int, y));
    }
}

pub proof fn lemma_traced_refl(s: &State, sink: PixelSink, c: u8)
    requires
        s.wf(),
    ensures
        s.traced(s, sink, c),
{
}

pub proof fn lemma_traced_trans(s0: &State, s1: &State, s2: &State, sink: PixelSink, c: u8)
    requires
        s1.traced(s0, sink, c),
        s2.traced(s1, sink, c),
    ensures
        s2.traced(s0, sink, c),
{
    match sink {
        PixelSink::Write => {
            assert forall|x: int, y: int| s0.on_canvas(x, y) implies {
                let v = #[trigger] s2.px(s0.target as int, x, y);
                v == s0.px(s0.target as int, x, y) || v == c
            } by {
                assert(s1.on_canvas(x, y));
            }
        },
        PixelSink::Span => {
            assert(s2.spans_widened(s0)) by {
                assert forall|y: int| 0 <= y < MAX_SCREEN_SIZE implies #[trigger] s2.sides_left@[y]
                    <= s0.sides_left@[y] && s2.sides_right@[y] >= s0.sides_right@[y] by {
                    assert(s1.sides_left@[y] <= s0.sides_left@[y]);
                    assert(s1.sides_right@[y] >= s0.sides_right@[y]);
                }
            }
        },
    }
}

pub proof fn lemma_marked_kept(s1: &State, s2: &State, sink: PixelSink, x: int, y: int, c: u8)
    requires
        s1.wf(),
        s1.marked(sink, x, y, c),
        s2.traced(s1, sink, c),
    ensures
        s2.marked(sink, x, y, c),
{
    match sink {
        PixelSink::Write => {
            if s1.on_canvas(x, y) {
                assert(s2.px(s1.target as int, x, y) == s1.px(s1.target as int, x, y) || s2.px(
                    s1.target as int,
                    x,
                    y,
                ) == c);
            }
        },
        PixelSink::Span => {
            if 0 <= y < s1.span_rows() {
                assert(s2.sides_left@[y] <= s1.sides_left@[y]);
                assert(s2.sides_right@[y] >= s1.sides_right@[y]);
            }
        },
    }
}

} // verus!
