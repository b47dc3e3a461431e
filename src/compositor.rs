//! Copies between surfaces: whole canvases, with a transparency key or a
//! stencil, and rectangular sprite blits.
use vstd::prelude::*;
use crate::engine::{State, MAX_SCREEN_SIZE, SURFACE_COUNT};

verus! {

proof fn lemma_blocks_apart(s: int, t: int)
    requires
        0 <= s < SURFACE_COUNT,
        0 <= t < SURFACE_COUNT,
        s != t,
    ensures
        s * MAX_SCREEN_SIZE + MAX_SCREEN_SIZE <= t * MAX_SCREEN_SIZE || t * MAX_SCREEN_SIZE
            + MAX_SCREEN_SIZE <= s * MAX_SCREEN_SIZE,
{
    if s < t {
        assert(s * MAX_SCREEN_SIZE + MAX_SCREEN_SIZE <= t * MAX_SCREEN_SIZE) by (nonlinear_arith)
            requires
                s < t,
        ;
    } else {
        assert(t * MAX_SCREEN_SIZE + MAX_SCREEN_SIZE <= s * MAX_SCREEN_SIZE) by (nonlinear_arith)
            requires
                t < s,
        ;
    }
}

/// What position `i` of the surfaces holds after a canvas copy from surface
/// `source` to surface `target`: in the target's canvas, the source pixel at
/// the same place unless `keep` says to keep the target's own; elsewhere unchanged.
pub open spec fn copied(
    o: &State,
    source: int,
    target: int,
    i: int,
    keep: spec_fn(int) -> bool,
) -> u8 {
    let k = i - target * MAX_SCREEN_SIZE;
    if o.in_surface(target, i) && !keep(k) {
        o.surfaces@[source * MAX_SCREEN_SIZE + k]
    } else {
        o.surfaces@[i]
    }
}

/// Whether target pixel `(a, b)` lies in the sprite window: inside the
/// `w` by `h` rectangle at `(tx, ty)`, with the matching source pixel on the canvas.
pub open spec fn in_window(
    o: &State,
    sx: int,
    sy: int,
    tx: int,
    ty: int,
    w: int,
    h: int,
    a: int,
    b: int,
) -> bool {
    &&& 0 <= a - tx < w
    &&& 0 <= b - ty < h
    &&& o.on_canvas(a - tx + sx, b - ty + sy)
}

/// Target pixel `(a, b)` after a sprite blit; with `keyed`, source pixels of a
/// transparent colour are skipped.
pub open spec fn blitted(
    o: &State,
    source: int,
    target: int,
    sx: int,
    sy: int,
    tx: int,
    ty: int,
    w: int,
    h: int,
    keyed: bool,
    a: int,
    b: int,
) -> u8 {
    let v = o.px(source, a - tx + sx, b - ty + sy);
    if in_window(o, sx, sy, tx, ty, w, h, a, b) && !(keyed && o.transparency@[v as int]) {
        v
    } else {
        o.px(target, a, b)
    }
}

impl State {
    /// Copies the canvas of one surface, byte by byte, over another. With
    /// `keyed`, source pixels of a transparent colour are skipped; with `masked`,
    /// only pixels whose colour on surface `mask` is transparent are copied.
    fn copy_canvas(&mut self, source: u8, target: u8, mask: u8, keyed: bool, masked: bool)
        requires
            old(self).wf(),
            source < SURFACE_COUNT,
            target < SURFACE_COUNT,
            mask < SURFACE_COUNT,
            source != target,
            mask != target,
        ensures
            final(self).wf(),
            final(self).same_settings(old(self)),
            final(self).sides_left@ == old(self).sides_left@,
            final(self).sides_right@ == old(self).sides_right@,
            forall|i: int|
                0 <= i < old(self).surfaces@.len() ==> #[trigger] final(self).surfaces@[i] == copied(
                    old(self),
                    source as int,
                    target as int,
                    i,
                    |k: int|
                        (keyed && old(self).transparency@[old(self).surfaces@[source
                            * MAX_SCREEN_SIZE + k] as int]) || (masked && !old(
                            self,
                        ).transparency@[old(self).surfaces@[mask * MAX_SCREEN_SIZE + k] as int]),
                ),
    {
        let ghost s0 = *self;
        let size = self.width * self.height;
        let sbase = (source as usize) * MAX_SCREEN_SIZE;
        let tbase = (target as usize) * MAX_SCREEN_SIZE;
        let mbase = (mask as usize) * MAX_SCREEN_SIZE;
        let ghost keep = |k: int|
            (keyed && s0.transparency@[s0.surfaces@[source * MAX_SCREEN_SIZE + k] as int]) || (
            masked && !s0.transparency@[s0.surfaces@[mask * MAX_SCREEN_SIZE + k] as int]);
        let mut k: usize = 0;
        while k < size
            invariant
                self.wf(),
                s0 == *old(self),
                self.same_settings(&s0),
                self.sides_left@ == s0.sides_left@,
                self.sides_right@ == s0.sides_right@,
                size == s0.width * s0.height,
                size <= MAX_SCREEN_SIZE,
                source < SURFACE_COUNT,
                target < SURFACE_COUNT,
                mask < SURFACE_COUNT,
                source != target,
                mask != target,
                sbase == source * MAX_SCREEN_SIZE,
                tbase == target * MAX_SCREEN_SIZE,
                mbase == mask * MAX_SCREEN_SIZE,
                keep == (|k: int|
                    (keyed && s0.transparency@[s0.surfaces@[source * MAX_SCREEN_SIZE + k] as int])
                        || (masked && !s0.transparency@[s0.surfaces@[mask * MAX_SCREEN_SIZE
                        + k] as int])),
                k <= size,
                forall|i: int|
                    0 <= i < s0.surfaces@.len() ==> #[trigger] self.surfaces@[i] == if tbase <= i
                        < tbase + k {
                        copied(&s0, source as int, target as int, i, keep)
                    } else {
                        s0.surfaces@[i]
                    },
            decreases size - k,
        {
            proof {
                lemma_blocks_apart(source as int, target as int);
                lemma_blocks_apart(mask as int, target as int);
            }
            let v = self.surfaces[sbase + k];
            let m = self.surfaces[mbase + k];
            let skip = (keyed && self.transparency[v as usize]) || (masked
                && !self.transparency[m as usize]);
            if !skip {
                self.surfaces.set(tbase + k, v);
            }
            k = k + 1;
        }
    }

    /// Copies the canvas of surface `source` over that of surface `target`.
    pub fn copy_screen(&mut self, source: u8, target: u8)
        requires
            old(self).wf(),
            source < SURFACE_COUNT,
            target < SURFACE_COUNT,
            source != target,
        ensures
            final(self).wf(),
            final(self).same_settings(old(self)),
            final(self).sides_left@ == old(self).sides_left@,
            final(self).sides_right@ == old(self).sides_right@,
            forall|i: int|
                0 <= i < old(self).surfaces@.len() ==> #[trigger] final(self).surfaces@[i] == copied(
                    old(self),
                    source as int,
                    target as int,
                    i,
                    |k: int| false,
                ),
    {
        self.copy_canvas(source, target, source, false, false);
        proof {
            let ghost o = *old(self);
            assert forall|i: int| 0 <= i < o.surfaces@.len() implies #[trigger] self.surfaces@[i]
                == copied(&o, source as int, target as int, i, |k: int| false) by {
                assert(self.surfaces@[i] == copied(
                    &o,
                    source as int,
                    target as int,
                    i,
                    |k: int|
                        (false && o.transparency@[o.surfaces@[source * MAX_SCREEN_SIZE + k] as int])
                            || (false && !o.transparency@[o.surfaces@[source * MAX_SCREEN_SIZE
                            + k] as int]),
                ));
            }
        }
    }

    /// Copies the canvas of `source` over that of `target`, skipping source
    /// pixels whose colour is flagged transparent.
    pub fn copy_screen_with_transparency(&mut self, source: u8, target: u8)
        requires
            old(self).wf(),
            source < SURFACE_COUNT,
            target < SURFACE_COUNT,
            source != target,
        ensures
            final(self).wf(),
            final(self).same_settings(old(self)),
            final(self).sides_left@ == old(self).sides_left@,
            final(self).sides_right@ == old(self).sides_right@,
            forall|i: int|
                0 <= i < old(self).surfaces@.len() ==> #[trigger] final(self).surfaces@[i] == copied(
                    old(self),
                    source as int,
                    target as int,
                    i,
                    |k: int|
                        old(self).transparency@[old(self).surfaces@[source * MAX_SCREEN_SIZE
                            + k] as int],
                ),
    {
        self.copy_canvas(source, target, source, true, false);
        proof {
            let ghost o = *old(self);
            let ghost keep = |k: int|
                o.transparency@[o.surfaces@[source * MAX_SCREEN_SIZE + k] as int];
            assert forall|i: int| 0 <= i < o.surfaces@.len() implies #[trigger] self.surfaces@[i]
                == copied(&o, source as int, target as int, i, keep) by {
                assert(self.surfaces@[i] == copied(
                    &o,
                    source as int,
                    target as int,
                    i,
                    |k: int|
                        (true && o.transparency@[o.surfaces@[source * MAX_SCREEN_SIZE + k] as int])
                            || (false && !o.transparency@[o.surfaces@[source * MAX_SCREEN_SIZE
                            + k] as int]),
                ));
            }
        }
    }

    /// Copies the canvas of `source` over that of `target` where the pixel at
    /// the same place on surface `mask` has a transparent colour: the mask is
    /// a stencil, whatever the source colours are.
    pub fn copy_screen_with_transparency_mask(&mut self, source: u8, target: u8, mask: u8)
        requires
            old(self).wf(),
            source < SURFACE_COUNT,
            target < SURFACE_COUNT,
            mask < SURFACE_COUNT,
            source != target,
            mask != target,
        ensures
            final(self).wf(),
            final(self).same_settings(old(self)),
            final(self).sides_left@ == old(self).sides_left@,
            final(self).sides_right@ == old(self).sides_right@,
            forall|i: int|
                0 <= i < old(self).surfaces@.len() ==> #[trigger] final(self).surfaces@[i] == copied(
                    old(self),
                    source as int,
                    target as int,
                    i,
                    |k: int|
                        !old(self).transparency@[old(self).surfaces@[mask * MAX_SCREEN_SIZE
                            + k] as int],
                ),
    {
        self.copy_canvas(source, target, mask, false, true);
        proof {
            let ghost o = *old(self);
            let ghost keep = |k: int| !o.transparency@[o.surfaces@[mask * MAX_SCREEN_SIZE + k] as int];
            assert forall|i: int| 0 <= i < o.surfaces@.len() implies #[trigger] self.surfaces@[i]
                == copied(&o, source as int, target as int, i, keep) by {
                assert(self.surfaces@[i] == copied(
                    &o,
                    source as int,
                    target as int,
                    i,
                    |k: int|
                        (false && o.transparency@[o.surfaces@[source * MAX_SCREEN_SIZE + k] as int])
                            || (true && !o.transparency@[o.surfaces@[mask * MAX_SCREEN_SIZE
                            + k] as int]),
                ));
            }
        }
    }

    /// Copies the `w` by `h` rectangle at `(sx, sy)` of surface `source` to
    /// `(tx, ty)` of surface `target`, pixel by pixel where both the source and
    /// the target pixel fall on the canvas; with `keyed`, transparent source
    /// colours are skipped.
    fn blit(
        &mut self,
        source: u8,
        target: u8,
        sx: i32,
        sy: i32,
        tx: i32,
        ty: i32,
        w: usize,
        h: usize,
        keyed: bool,
    )
        requires
            old(self).wf(),
            source < SURFACE_COUNT,
            target < SURFACE_COUNT,
            source != target,
        ensures
            final(self).wf(),
            final(self).same_settings(old(self)),
            final(self).only_surface_changed(old(self), target as int),
            final(self).sides_left@ == old(self).sides_left@,
            final(self).sides_right@ == old(self).sides_right@,
            forall|a: int, b: int|
                old(self).on_canvas(a, b) ==> #[trigger] final(self).px(target as int, a, b)
                    == blitted(
                    old(self),
                    source as int,
                    target as int,
                    sx as int,
                    sy as int,
                    tx as int,
                    ty as int,
                    w as int,
                    h as int,
                    keyed,
                    a,
                    b,
                ),
    {
        let ghost s0 = *self;
        if self.width == 0 || self.height == 0 {
            return;
        }
        let width = self.width as i64;
        let height = self.height as i64;
        let mut b: i64 = 0;
        while b < height
            invariant
                self.wf(),
                s0 == *old(self),
                self.same_settings(&s0),
                self.only_surface_changed(&s0, target as int),
                self.sides_left@ == s0.sides_left@,
                self.sides_right@ == s0.sides_right@,
                source < SURFACE_COUNT,
                target < SURFACE_COUNT,
                source != target,
                width == s0.width,
                height == s0.height,
                0 <= b <= height,
                forall|s2: int, a2: int, b2: int|
                    0 <= s2 < SURFACE_COUNT && s2 != target && s0.on_canvas(a2, b2)
                        ==> #[trigger] self.px(s2, a2, b2) == s0.px(s2, a2, b2),
                forall|a2: int, b2: int|
                    s0.on_canvas(a2, b2) ==> #[trigger] self.px(target as int, a2, b2) == if b2
                        < b {
                        blitted(
                            &s0,
                            source as int,
                            target as int,
                            sx as int,
                            sy as int,
                            tx as int,
                            ty as int,
                            w as int,
                            h as int,
                            keyed,
                            a2,
                            b2,
                        )
                    } else {
                        s0.px(target as int, a2, b2)
                    },
            decreases height - b,
        {
            let mut a: i64 = 0;
            while a < width
                invariant
                    self.wf(),
                    s0 == *old(self),
                    self.same_settings(&s0),
                    self.only_surface_changed(&s0, target as int),
                    self.sides_left@ == s0.sides_left@,
                    self.sides_right@ == s0.sides_right@,
                    source < SURFACE_COUNT,
                    target < SURFACE_COUNT,
                    source != target,
                    width == s0.width,
                    height == s0.height,
                    0 <= b < height,
                    0 <= a <= width,
                    forall|s2: int, a2: int, b2: int|
                        0 <= s2 < SURFACE_COUNT && s2 != target && s0.on_canvas(a2, b2)
                            ==> #[trigger] self.px(s2, a2, b2) == s0.px(s2, a2, b2),
                    forall|a2: int, b2: int|
                        s0.on_canvas(a2, b2) ==> #[trigger] self.px(target as int, a2, b2) == if b2
                            < b || (b2 == b && a2 < a) {
                            blitted(
                                &s0,
                                source as int,
                                target as int,
                                sx as int,
                                sy as int,
                                tx as int,
                                ty as int,
                                w as int,
                                h as int,
                                keyed,
                                a2,
                                b2,
                            )
                        } else {
                            s0.px(target as int, a2, b2)
                        },
                decreases width - a,
            {
                let i = a - tx as i64;
                let j = b - ty as i64;
                let px = i + sx as i64;
                let py = j + sy as i64;
                if i >= 0 && (i as usize) < w && j >= 0 && (j as usize) < h && px >= 0 && px < width
                    && py >= 0 && py < height {
                    proof {
                        crate::engine::lemma_idx_in_surface(self, source as int, px as int, py as int);
                    }
                    let v = self.surfaces[(source as usize) * MAX_SCREEN_SIZE + (py as usize)
                        * self.width + (px as usize)];
                    if !(keyed && self.transparency[v as usize]) {
                        self.put_at(target, a, b, v);
                    }
                }
                a = a + 1;
            }
            b = b + 1;
        }
    }

    /// Copies a `w` by `h` rectangle of `source` at `(source_x, source_y)` to
    /// `(target_x, target_y)` of `target`; a pixel is copied only where both its
    /// source and its target place fall on the canvas.
    pub fn copy_sprite(
        &mut self,
        source: u8,
        target: u8,
        source_x: i32,
        source_y: i32,
        target_x: i32,
        target_y: i32,
        width: usize,
        height: usize,
    )
        requires
            old(self).wf(),
            source < SURFACE_COUNT,
            target < SURFACE_COUNT,
            source != target,
        ensures
            final(self).wf(),
            final(self).same_settings(old(self)),
            final(self).only_surface_changed(old(self), target as int),
            final(self).sides_left@ == old(self).sides_left@,
            final(self).sides_right@ == old(self).sides_right@,
            forall|a: int, b: int|
                old(self).on_canvas(a, b) ==> #[trigger] final(self).px(target as int, a, b)
                    == blitted(
                    old(self),
                    source as int,
                    target as int,
                    source_x as int,
                    source_y as int,
                    target_x as int,
                    target_y as int,
                    width as int,
                    height as int,
                    false,
                    a,
                    b,
                ),
    {
        self.blit(source, target, source_x, source_y, target_x, target_y, width, height, false);
    }

    /// As `copy_sprite`, but source pixels of a transparent colour are skipped.
    pub fn copy_sprite_with_transparency(
        &mut self,
        source: u8,
        target: u8,
        source_x: i32,
        source_y: i32,
        target_x: i32,
        target_y: i32,
        width: usize,
        height: usize,
    )
        requires
            old(self).wf(),
            source < SURFACE_COUNT,
            target < SURFACE_COUNT,
            source != target,
        ensures
            final(self).wf(),
            final(self).same_settings(old(self)),
            final(self).only_surface_changed(old(self), target as int),
            final(self).sides_left@ == old(self).sides_left@,
            final(self).sides_right@ == old(self).sides_right@,
            forall|a: int, b: int|
                old(self).on_canvas(a, b) ==> #[trigger] final(self).px(target as int, a, b)
                    == blitted(
                    old(self),
                    source as int,
                    target as int,
                    source_x as int,
                    source_y as int,
                    target_x as int,
                    target_y as int,
                    width as int,
                    height as int,
                    true,
                    a,
                    b,
                ),
    {
        self.blit(source, target, source_x, source_y, target_x, target_y, width, height, true);
    }
}

} // verus!
