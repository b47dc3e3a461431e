//! Polylines and fans of triangles over lists of points, used for convex
//! polygons and for rings such as rotated rectangle outlines.
use vstd::prelude::*;
use crate::engine::{color_of, lemma_paint_compose, lemma_paint_nothing, lemma_paint_same, Point, State};
use crate::fills::{lemma_painted_stroked, lemma_stroked_trans, max3, min3, span_hit};

verus! {

impl State {
    /// The pixels of the segments joining the first `n` points in order.
    pub open spec fn chain_hit(&self, verts: Seq<Point>, n: nat, a: int, b: int) -> bool
        decreases n,
    {
        if n <= 1 {
            false
        } else {
            let (p, q) = (verts[n - 2], verts[n - 1]);
            self.chain_hit(verts, (n - 1) as nat, a, b) || self.line_paint(
                p.x as int,
                p.y as int,
                q.x as int,
                q.y as int,
            )(a, b)
        }
    }

    /// The pixels of the outlines of the triangles `(v0, v[i - 1], v[i])`
    /// for `i` in `2..n`.
    pub open spec fn fan_hit(&self, verts: Seq<Point>, n: nat, a: int, b: int) -> bool
        decreases n,
    {
        if n <= 2 {
            false
        } else {
            let (p, q, r) = (verts[0], verts[n - 2], verts[n - 1]);
            self.fan_hit(verts, (n - 1) as nat, a, b) || self.tri_hit(
                p.x as int,
                p.y as int,
                q.x as int,
                q.y as int,
                r.x as int,
                r.y as int,
            )(a, b)
        }
    }

    /// The pixels of the filled triangles `(v0, v[i - 1], v[i])` for `i` in
    /// `2..n`.
    pub open spec fn fill_fan_hit(&self, verts: Seq<Point>, n: nat, a: int, b: int) -> bool
        decreases n,
    {
        if n <= 2 {
            false
        } else {
            let (p, q, r) = (verts[0], verts[n - 2], verts[n - 1]);
            self.fill_fan_hit(verts, (n - 1) as nat, a, b) || self.tri_fill_hit(
                p.x as int,
                p.y as int,
                q.x as int,
                q.y as int,
                r.x as int,
                r.y as int,
            )(a, b)
        }
    }

    /// `line` between two points, also stated as a stroke.
    fn stroke_line(&mut self, p: Point, q: Point, c: i32)
        requires
            old(self).wf(),
        ensures
            final(self).wf(),
            final(self).painted(
                old(self),
                old(self).line_paint(p.x as int, p.y as int, q.x as int, q.y as int),
                color_of(c as int),
            ),
            final(self).stroked(old(self), color_of(c as int)),
            final(self).sides_left@ == old(self).sides_left@,
            final(self).sides_right@ == old(self).sides_right@,
    {
        let ghost s0 = *self;
        self.line(p.x, p.y, q.x, q.y, c);
        proof {
            lemma_painted_stroked(
                &s0,
                self,
                s0.line_paint(p.x as int, p.y as int, q.x as int, q.y as int),
                color_of(c as int),
            );
        }
    }

    /// `tri_fill`, stated as a stroke.
    fn stroke_tri_fill(&mut self, p: Point, q: Point, r: Point, c: i32)
        requires
            old(self).wf(),
        ensures
            final(self).wf(),
            final(self).stroked(old(self), color_of(c as int)),
            final(self).painted(
                old(self),
                old(self).tri_fill_hit(p.x as int, p.y as int, q.x as int, q.y as int, r.x as int, r.y as int),
                color_of(c as int),
            ),
    {
        let ghost s0 = *self;
        self.tri_fill(p.x, p.y, q.x, q.y, r.x, r.y, c);
        proof {
            lemma_painted_stroked(
                &s0,
                self,
                span_hit(
                    s0.clip_rect,
                    self.sides_left@,
                    self.sides_right@,
                    min3(s0.dev_y(p.y as int), s0.dev_y(q.y as int), s0.dev_y(r.y as int)),
                    max3(s0.dev_y(p.y as int), s0.dev_y(q.y as int), s0.dev_y(r.y as int)) + 1,
                    1,
                ),
                color_of(c as int),
            );
        }
    }

    /// Draws nothing for no point, the point for one, the segment for two,
    /// and otherwise the triangles `(v0, v[i - 1], v[i])`, filled or outlined.
    fn fan(&mut self, verts: &[Point], c: i32, filled: bool)
        requires
            old(self).wf(),
        ensures
            final(self).wf(),
            final(self).stroked(old(self), color_of(c as int)),
            filled && verts@.len() >= 3 ==> final(self).painted(
                old(self),
                |a: int, b: int| old(self).fill_fan_hit(verts@, verts@.len(), a, b),
                color_of(c as int),
            ),
            verts@.len() == 2 ==> final(self).painted(
                old(self),
                old(self).line_paint(
                    verts@[0].x as int,
                    verts@[0].y as int,
                    verts@[1].x as int,
                    verts@[1].y as int,
                ),
                color_of(c as int),
            ),
            !filled && verts@.len() >= 3 ==> final(self).painted(
                old(self),
                |a: int, b: int| old(self).fan_hit(verts@, verts@.len(), a, b),
                color_of(c as int),
            ),
            verts@.len() == 0 ==> *final(self) == *old(self),
            verts@.len() == 1 ==> final(self).painted(
                old(self),
                |a: int, b: int|
                    a == old(self).dev_x(verts@[0].x as int) && b == old(self).dev_y(
                        verts@[0].y as int,
                    ),
                color_of(c as int),
            ),
    {
        let ghost s0 = *self;
        let n = verts.len();
        if n == 0 {
            return;
        }
        if n == 1 {
            self.pset(verts[0].x, verts[0].y, c);
            proof {
                lemma_painted_stroked(
                    &s0,
                    self,
                    |a: int, b: int|
                        a == s0.dev_x(verts@[0].x as int) && b == s0.dev_y(verts@[0].y as int),
                    color_of(c as int),
                );
            }
            return;
        }
        if n == 2 {
            self.stroke_line(verts[0], verts[1], c);
            return;
        }
        proof {
            lemma_painted_stroked(self, self, |a: int, b: int| false, color_of(c as int));
            lemma_paint_nothing(self, |a: int, b: int| s0.fan_hit(verts@, 2, a, b), color_of(c as int));
            lemma_paint_nothing(self, |a: int, b: int| s0.fill_fan_hit(verts@, 2, a, b), color_of(c as int));
        }
        let mut i: usize = 2;
        while i < n
            invariant
                self.wf(),
                s0 == *old(self),
                n == verts@.len(),
                2 <= i <= n,
                self.stroked(&s0, color_of(c as int)),
                !filled ==> self.painted(
                    &s0,
                    |a: int, b: int| s0.fan_hit(verts@, i as nat, a, b),
                    color_of(c as int),
                ),
                filled ==> self.painted(
                    &s0,
                    |a: int, b: int| s0.fill_fan_hit(verts@, i as nat, a, b),
                    color_of(c as int),
                ),
            decreases n - i,
        {
            let ghost s1 = *self;
            if filled {
                let (p, q, r) = (verts[0], verts[i - 1], verts[i]);
                self.stroke_tri_fill(p, q, r, c);
                proof {
                    lemma_paint_compose(
                        &s0,
                        &s1,
                        self,
                        |a: int, b: int| s0.fill_fan_hit(verts@, i as nat, a, b),
                        s1.tri_fill_hit(p.x as int, p.y as int, q.x as int, q.y as int, r.x as int, r.y as int),
                        |a: int, b: int| s0.fill_fan_hit(verts@, (i + 1) as nat, a, b),
                        color_of(c as int),
                    );
                }
            } else {
                let (p, q, r) = (verts[0], verts[i - 1], verts[i]);
                self.tri(p.x, p.y, q.x, q.y, r.x, r.y, c);
                proof {
                    lemma_paint_compose(
                        &s0,
                        &s1,
                        self,
                        |a: int, b: int| s0.fan_hit(verts@, i as nat, a, b),
                        s1.tri_hit(p.x as int, p.y as int, q.x as int, q.y as int, r.x as int, r.y as int),
                        |a: int, b: int| s0.fan_hit(verts@, (i + 1) as nat, a, b),
                        color_of(c as int),
                    );
                }
            }
            proof {
                lemma_stroked_trans(&s0, &s1, self, color_of(c as int));
            }
            i = i + 1;
        }
    }

    /// Fills the fan of triangles `(v0, v[i - 1], v[i])` over `verts`, which
    /// fills a convex polygon; one point is set, two are joined by a segment.
    pub fn tri_fill_fan(&mut self, verts: &[Point], c: i32)
        requires
            old(self).wf(),
        ensures
            final(self).wf(),
            final(self).stroked(old(self), color_of(c as int)),
            verts@.len() == 2 ==> final(self).painted(
                old(self),
                old(self).line_paint(
                    verts@[0].x as int,
                    verts@[0].y as int,
                    verts@[1].x as int,
                    verts@[1].y as int,
                ),
                color_of(c as int),
            ),
            verts@.len() >= 3 ==> final(self).painted(
                old(self),
                |a: int, b: int| old(self).fill_fan_hit(verts@, verts@.len(), a, b),
                color_of(c as int),
            ),
            verts@.len() == 0 ==> *final(self) == *old(self),
            verts@.len() == 1 ==> final(self).painted(
                old(self),
                |a: int, b: int|
                    a == old(self).dev_x(verts@[0].x as int) && b == old(self).dev_y(
                        verts@[0].y as int,
                    ),
                color_of(c as int),
            ),
    {
        self.fan(verts, c, true);
    }

    /// Outlines the fan of triangles `(v0, v[i - 1], v[i])` over `verts`;
    /// one point is set, two are joined by a segment.
    pub fn tri_fan(&mut self, verts: &[Point], c: i32)
        requires
            old(self).wf(),
        ensures
            final(self).wf(),
            final(self).stroked(old(self), color_of(c as int)),
            verts@.len() == 2 ==> final(self).painted(
                old(self),
                old(self).line_paint(
                    verts@[0].x as int,
                    verts@[0].y as int,
                    verts@[1].x as int,
                    verts@[1].y as int,
                ),
                color_of(c as int),
            ),
            verts@.len() >= 3 ==> final(self).painted(
                old(self),
                |a: int, b: int| old(self).fan_hit(verts@, verts@.len(), a, b),
                color_of(c as int),
            ),
            verts@.len() == 0 ==> *final(self) == *old(self),
            verts@.len() == 1 ==> final(self).painted(
                old(self),
                |a: int, b: int|
                    a == old(self).dev_x(verts@[0].x as int) && b == old(self).dev_y(
                        verts@[0].y as int,
                    ),
                color_of(c as int),
            ),
    {
        self.fan(verts, c, false);
    }

    /// Joins consecutive points with segments, and with `closed` the last
    /// point back to the first; one point is set.
    pub fn poly_line(&mut self, verts: &[Point], c: i32, closed: bool)
        requires
            old(self).wf(),
        ensures
            final(self).wf(),
            final(self).stroked(old(self), color_of(c as int)),
            verts@.len() >= 2 ==> final(self).painted(
                old(self),
                |a: int, b: int|
                    old(self).chain_hit(verts@, verts@.len(), a, b) || (closed && verts@.len() >= 3
                        && old(self).line_paint(
                        verts@[0].x as int,
                        verts@[0].y as int,
                        verts@[verts@.len() - 1].x as int,
                        verts@[verts@.len() - 1].y as int,
                    )(a, b)),
                color_of(c as int),
            ),
            final(self).sides_left@ == old(self).sides_left@,
            final(self).sides_right@ == old(self).sides_right@,
            verts@.len() == 0 ==> *final(self) == *old(self),
            verts@.len() == 1 ==> final(self).painted(
                old(self),
                |a: int, b: int|
                    a == old(self).dev_x(verts@[0].x as int) && b == old(self).dev_y(
                        verts@[0].y as int,
                    ),
                color_of(c as int),
            ),
    {
        let ghost s0 = *self;
        let n = verts.len();
        if n == 0 {
            return;
        }
        if n == 1 {
            self.pset(verts[0].x, verts[0].y, c);
            proof {
                lemma_painted_stroked(
                    &s0,
                    self,
                    |a: int, b: int|
                        a == s0.dev_x(verts@[0].x as int) && b == s0.dev_y(verts@[0].y as int),
                    color_of(c as int),
                );
            }
            return;
        }
        proof {
            lemma_painted_stroked(self, self, |a: int, b: int| false, color_of(c as int));
            lemma_paint_nothing(self, |a: int, b: int| s0.chain_hit(verts@, 1, a, b), color_of(c as int));
        }
        let mut i: usize = 1;
        while i < n
            invariant
                self.wf(),
                s0 == *old(self),
                n == verts@.len(),
                1 <= i <= n,
                self.stroked(&s0, color_of(c as int)),
                self.painted(&s0, |a: int, b: int| s0.chain_hit(verts@, i as nat, a, b), color_of(c as int)),
                self.sides_left@ == s0.sides_left@,
                self.sides_right@ == s0.sides_right@,
            decreases n - i,
        {
            let ghost s1 = *self;
            let (p, q) = (verts[i - 1], verts[i]);
            self.stroke_line(p, q, c);
            proof {
                lemma_stroked_trans(&s0, &s1, self, color_of(c as int));
                lemma_paint_compose(
                    &s0,
                    &s1,
                    self,
                    |a: int, b: int| s0.chain_hit(verts@, i as nat, a, b),
                    s1.line_paint(p.x as int, p.y as int, q.x as int, q.y as int),
                    |a: int, b: int| s0.chain_hit(verts@, (i + 1) as nat, a, b),
                    color_of(c as int),
                );
            }
            i = i + 1;
        }
        let ghost last = verts@[n - 1];
        if closed && n >= 3 {
            let ghost s1 = *self;
            self.stroke_line(verts[0], verts[n - 1], c);
            proof {
                lemma_stroked_trans(&s0, &s1, self, color_of(c as int));
                lemma_paint_compose(
                    &s0,
                    &s1,
                    self,
                    |a: int, b: int| s0.chain_hit(verts@, n as nat, a, b),
                    s1.line_paint(verts@[0].x as int, verts@[0].y as int, last.x as int, last.y as int),
                    |a: int, b: int|
                        s0.chain_hit(verts@, n as nat, a, b) || (closed && n >= 3 && s0.line_paint(
                            verts@[0].x as int,
                            verts@[0].y as int,
                            last.x as int,
                            last.y as int,
                        )(a, b)),
                    color_of(c as int),
                );
            }
        } else {
            proof {
                lemma_paint_same(
                    &s0,
                    self,
                    |a: int, b: int| s0.chain_hit(verts@, n as nat, a, b),
                    |a: int, b: int|
                        s0.chain_hit(verts@, n as nat, a, b) || (closed && n >= 3 && s0.line_paint(
                            verts@[0].x as int,
                            verts@[0].y as int,
                            last.x as int,
                            last.y as int,
                        )(a, b)),
                    color_of(c as int),
                );
            }
        }
    }
}

} // verus!
