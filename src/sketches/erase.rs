//! Erasing a scrolling pattern: the pointer paints colour 1 on a mask
//! surface, and the pattern shows through wherever the mask is transparent.
use vstd::prelude::*;
use crate::engine::{ClipRect, Point, State, MAX_SCREEN_SIZE, MAX_WIDTH};
use crate::geometry::{wrap_byte, wrap_spec};
use crate::input::Input;
use crate::sketch::Sketch;

verus! {

/// Side of the erase sketch's canvas.
pub const ERASE_SIZE: usize = 512;

/// Cells across and down the block pattern.
pub const GRID: usize = 128;

/// Colour of block `(i, j)` of the pattern.
pub open spec fn block_color(i: int, j: int, shift: int, slanted: bool) -> int {
    if slanted {
        wrap_spec(i - 2 * j + shift) % 16
    } else {
        (i + j + shift) % 16
    }
}

/// The block that coordinate `a` falls in, for blocks `w` wide.
proof fn lemma_block_of(a: int, w: int, q: int)
    requires
        w > 0,
        q * w <= a < q * w + w,
    ensures
        a / w == q,
{
    vstd::arithmetic::div_mod::lemma_fundamental_div_mod_converse(a, w, q, a - q * w);
}

/// A coordinate at least 0 lies in its block.
proof fn lemma_in_block(a: int, w: int)
    requires
        w > 0,
        a >= 0,
    ensures
        (a / w) * w <= a < (a / w) * w + w,
        a / w >= 0,
{
    vstd::arithmetic::div_mod::lemma_fundamental_div_mod(a, w);
    vstd::arithmetic::div_mod::lemma_mod_pos_bound(a, w);
    vstd::arithmetic::div_mod::lemma_div_pos_is_pos(a, w);
    assert(w * (a / w) == (a / w) * w) by (nonlinear_arith);
}

/// Fills the target with a 128 by 128 grid of blocks, block `(x, y)` in
/// `block_color(x, y, shift, slanted)`. Each block is filled one pixel wider
/// and higher than its share, so the next block overlaps its last column and
/// row. With no camera offset, every pixel of the area that the blocks share
/// out holds the colour of its own block.
pub fn block_grid(state: &mut State, shift: usize, slanted: bool)
    requires
        old(state).wf(),
        shift < 0x1000_0000,
    ensures
        final(state).wf(),
        final(state).same_settings(old(state)),
        final(state).only_surface_changed(old(state), old(state).target as int),
        final(state).sides_left@ == old(state).sides_left@,
        final(state).sides_right@ == old(state).sides_right@,
        old(state).offset == (Point { x: 0, y: 0 }) ==> forall|a: int, b: int|
            old(state).on_canvas(a, b) && a < GRID * (old(state).width / GRID) && b < GRID * (
            old(state).height / GRID) ==> #[trigger] final(state).px(old(state).target as int, a, b)
                == block_color(
                a / (old(state).width / GRID) as int,
                b / (old(state).height / GRID) as int,
                shift as int,
                slanted,
            ) as u8,
{
    let ghost s0 = *state;
    if state.width == 0 || state.height == 0 {
        return;
    }
    let width_mult = state.width / GRID;
    let height_mult = state.height / GRID;
    let ghost t = s0.target as int;
    let ghost (wm, hm) = (width_mult as int, height_mult as int);
    let mut y: usize = 0;
    while y < GRID
        invariant
            state.wf(),
            s0 == *old(state),
            state.same_settings(&s0),
            state.only_surface_changed(&s0, t),
            state.sides_left@ == s0.sides_left@,
            state.sides_right@ == s0.sides_right@,
            t == s0.target,
            wm == width_mult && hm == height_mult,
            width_mult == s0.width / GRID,
            height_mult == s0.height / GRID,
            width_mult <= MAX_SCREEN_SIZE / GRID,
            height_mult <= MAX_SCREEN_SIZE / GRID,
            shift < 0x1000_0000,
            y <= GRID,
            s0.offset == (Point { x: 0, y: 0 }) ==> forall|a: int, b: int|
                s0.on_canvas(a, b) && a < GRID * wm && b < GRID * hm && b / hm < y
                    ==> #[trigger] state.px(t, a, b) == block_color(a / wm, b / hm, shift as int, slanted) as u8,
        decreases GRID - y,
    {
        let mut x: usize = 0;
        while x < GRID
            invariant
                state.wf(),
                s0 == *old(state),
                state.same_settings(&s0),
                state.only_surface_changed(&s0, t),
                state.sides_left@ == s0.sides_left@,
                state.sides_right@ == s0.sides_right@,
                t == s0.target,
                wm == width_mult && hm == height_mult,
                width_mult == s0.width / GRID,
                height_mult == s0.height / GRID,
                width_mult <= MAX_SCREEN_SIZE / GRID,
                height_mult <= MAX_SCREEN_SIZE / GRID,
                shift < 0x1000_0000,
                y < GRID,
                x <= GRID,
                s0.offset == (Point { x: 0, y: 0 }) ==> forall|a: int, b: int|
                    s0.on_canvas(a, b) && a < GRID * wm && b < GRID * hm && (b / hm < y || (b / hm
                        == y && a / wm < x)) ==> #[trigger] state.px(t, a, b) == block_color(
                        a / wm,
                        b / hm,
                        shift as int,
                        slanted,
                    ) as u8,
            decreases GRID - x,
        {
            assert(x * width_mult <= GRID * (MAX_SCREEN_SIZE / GRID)) by (nonlinear_arith)
                requires
                    x < GRID,
                    width_mult <= MAX_SCREEN_SIZE / GRID,
            ;
            assert(y * height_mult <= GRID * (MAX_SCREEN_SIZE / GRID)) by (nonlinear_arith)
                requires
                    y < GRID,
                    height_mult <= MAX_SCREEN_SIZE / GRID,
            ;
            let x0 = x * width_mult;
            let y0 = y * height_mult;
            let x1 = x0 + width_mult;
            let y1 = y0 + height_mult;
            let c = if slanted {
                (wrap_byte(x as i32 - 2 * (y as i32) + shift as i32) % 16) as i32
            } else {
                ((x + y + shift) % 16) as i32
            };
            assert(c == block_color(x as int, y as int, shift as int, slanted));
            let ghost s1 = *state;
            state.rect_fill(x0 as i32, y0 as i32, x1 as i32, y1 as i32, c);
            proof {
                if s0.offset == (Point { x: 0, y: 0 }) {
                    assert forall|a: int, b: int|
                        s0.on_canvas(a, b) && a < GRID * wm && b < GRID * hm && (b / hm < y || (b
                            / hm == y && a / wm < x + 1)) implies #[trigger] state.px(t, a, b)
                        == block_color(a / wm, b / hm, shift as int, slanted) as u8 by {
                        assert(wm > 0 && hm > 0) by (nonlinear_arith)
                            requires
                                a < GRID * wm,
                                b < GRID * hm,
                                a >= 0,
                                b >= 0,
                                wm >= 0,
                                hm >= 0,
                        ;
                        lemma_in_block(a, wm);
                        lemma_in_block(b, hm);
                        let (i, j) = (a / wm, b / hm);
                        let hit = s1.rect_fill_hit(x0 as int, y0 as int, x1 as int, y1 as int);
                        if i == x && j == y {
                            assert(s1.on_canvas(x0 as int, y0 as int)) by (nonlinear_arith)
                                requires
                                    x0 == x * wm,
                                    y0 == y * hm,
                                    i * wm <= a,
                                    j * hm <= b,
                                    i == x,
                                    j == y,
                                    s0.on_canvas(a, b),
                                    s1.width == s0.width,
                                    s1.height == s0.height,
                                    x0 >= 0,
                                    y0 >= 0,
                            ;
                            assert(hit(a, b)) by (nonlinear_arith)
                                requires
                                    s1.on_canvas(x0 as int, y0 as int),
                                    x0 == x * wm,
                                    y0 == y * hm,
                                    x1 == x0 + wm,
                                    y1 == y0 + hm,
                                    i * wm <= a < i * wm + wm,
                                    j * hm <= b < j * hm + hm,
                                    i == x,
                                    j == y,
                                    hit == s1.rect_fill_hit(x0 as int, y0 as int, x1 as int, y1 as int),
                                    s1.offset == (Point { x: 0, y: 0 }),
                            ;
                            assert(crate::engine::color_of(c as int) == c);
                        } else {
                            assert(!hit(a, b)) by (nonlinear_arith)
                                requires
                                    x0 == x * wm,
                                    y0 == y * hm,
                                    x1 == x0 + wm,
                                    y1 == y0 + hm,
                                    i * wm <= a < i * wm + wm,
                                    j * hm <= b < j * hm + hm,
                                    j < y || (j == y && i < x),
                                    wm > 0,
                                    hm > 0,
                                    hit == s1.rect_fill_hit(x0 as int, y0 as int, x1 as int, y1 as int),
                                    s1.offset == (Point { x: 0, y: 0 }),
                            {
                                if j < y {
                                    assert(j * hm + hm <= y * hm);
                                } else {
                                    assert(i * wm + wm <= x * wm);
                                }
                            }
                        }
                    }
                }
            }
            x = x + 1;
        }
        proof {
            if s0.offset == (Point { x: 0, y: 0 }) {
                assert forall|a: int, b: int|
                    s0.on_canvas(a, b) && a < GRID * wm && b < GRID * hm && b / hm < y + 1 implies #[trigger] state.px(
                    t,
                    a,
                    b,
                ) == block_color(a / wm, b / hm, shift as int, slanted) as u8 by {
                    assert(wm > 0) by (nonlinear_arith)
                        requires
                            a < GRID * wm,
                            a >= 0,
                            wm >= 0,
                    ;
                    lemma_in_block(a, wm);
                    assert(a / wm < GRID) by (nonlinear_arith)
                        requires
                            (a / wm) * wm <= a,
                            a < GRID * wm,
                            wm > 0,
                    ;
                }
            }
        }
        y = y + 1;
    }
    proof {
        if s0.offset == (Point { x: 0, y: 0 }) {
            assert forall|a: int, b: int|
                s0.on_canvas(a, b) && a < GRID * wm && b < GRID * hm implies #[trigger] state.px(
                t,
                a,
                b,
            ) == block_color(a / wm, b / hm, shift as int, slanted) as u8 by {
                assert(hm > 0) by (nonlinear_arith)
                    requires
                        b < GRID * hm,
                        b >= 0,
                        hm >= 0,
                ;
                lemma_in_block(b, hm);
                assert(b / hm < GRID) by (nonlinear_arith)
                    requires
                        (b / hm) * hm <= b,
                        b < GRID * hm,
                        hm > 0,
                ;
            }
        }
    }
}

/// Makes the canvas `size` by `size`, clears surfaces 0 to 2 and draws the
/// block pattern on surface 2, which stays the target.
pub fn prepare(state: &mut State, size: usize)
    requires
        old(state).wf(),
        size <= MAX_WIDTH,
    ensures
        final(state).wf(),
        prepared(final(state), old(state), size as int),
        final(state).transparency@ == old(state).transparency@,
{
    assert(size * size <= MAX_SCREEN_SIZE) by (nonlinear_arith)
        requires
            size <= MAX_WIDTH,
    ;
    let _ = state.set_dimensions(size, size);
    let _ = state.set_target(0);
    state.cls(0);
    let _ = state.set_target(1);
    state.cls(0);
    let _ = state.set_target(2);
    state.cls(0);
    let ghost s3 = *state;
    block_grid(state, 0, false);
    proof {
        assert forall|i: int| 0 <= i < 2 * MAX_SCREEN_SIZE implies #[trigger] state.surfaces@[i] == 0 by {
            assert(!s3.in_surface(2, i));
        }
        assert forall|i: int| 3 * MAX_SCREEN_SIZE <= i < state.surfaces@.len() implies #[trigger] state.surfaces@[i]
            == old(state).surfaces@[i] by {
            assert(!s3.in_surface(2, i));
        }
        assert forall|i: int|
            2 * MAX_SCREEN_SIZE <= i < 3 * MAX_SCREEN_SIZE && !s3.in_surface(2, i) implies #[trigger] state.surfaces@[i]
            == 0 by {}
    }
}

/// What `prepare` leaves: a `size` by `size` canvas with a full clip and
/// surface 2 as target, offset and palettes as in `o`; surfaces 0 and 1 cleared,
/// surface 3 untouched, and surface 2 cleared under the block pattern, which
/// with no camera offset covers the blocks' area.
pub open spec fn prepared(s: &State, o: &State, size: int) -> bool {
    &&& s.width == size && s.height == size
    &&& s.clip_rect == (ClipRect { l: 0, t: 0, r: size as i64, b: size as i64 })
    &&& s.target == 2
    &&& s.offset == o.offset
    &&& s.palette@ == o.palette@
    &&& s.palette_swap@ == o.palette_swap@
    &&& s.surfaces@.len() == o.surfaces@.len()
    &&& forall|i: int| 0 <= i < 2 * MAX_SCREEN_SIZE ==> #[trigger] s.surfaces@[i] == 0
    &&& forall|i: int|
        3 * MAX_SCREEN_SIZE <= i < s.surfaces@.len() ==> #[trigger] s.surfaces@[i] == o.surfaces@[i]
    &&& forall|i: int|
        2 * MAX_SCREEN_SIZE <= i < 3 * MAX_SCREEN_SIZE && !s.in_surface(2, i) ==> #[trigger] s.surfaces@[i]
            == 0
    &&& o.offset == (Point { x: 0, y: 0 }) ==> forall|a: int, b: int|
        s.on_canvas(a, b) && a < GRID * (size / GRID as int) && b < GRID * (size / GRID as int)
            ==> #[trigger] s.px(2, a, b) == block_color(
            a / (size / GRID as int),
            b / (size / GRID as int),
            0,
            false,
        ) as u8
}

/// Paints the pointer's stroke into the target in colour `c`: a disc where
/// the pointer rests or first appears, a capped fat line where it moved.
pub fn erase_stroke(
    state: &mut State,
    last: &mut Option<Point>,
    mouse: Option<Point>,
    radius: i32,
    c: i32,
)
    requires
        old(state).wf(),
    ensures
        final(state).wf(),
        *final(last) == mouse,
{
    match mouse {
        Some(p) => {
            match *last {
                Some(l) => {
                    if l.x == p.x && l.y == p.y {
                        state.circ_fill(p.x, p.y, radius, c);
                    } else {
                        state.fat_line(l.x, l.y, p.x, p.y, radius, true, c);
                    }
                },
                None => state.circ_fill(p.x, p.y, radius, c),
            }
            *last = Some(p);
        },
        None => {
            *last = None;
        },
    }
}

pub struct Erase {
    pub last_mouse: Option<Point>,
    pub radius: i32,
    pub count: u32,
}

impl Sketch for Erase {
    fn new(state: &mut State) -> Erase {
        new(state)
    }

    fn update(&mut self, state: &mut State, input: &Input, new_time: u32, old_time: u32) {
        let _ = state.set_target(1);
        self.count = (self.count % 128 + 1) % 128;
        block_grid(state, (self.count / 2) as usize, false);
        let _ = state.set_target(2);
        erase_stroke(state, &mut self.last_mouse, input.get_mouse_pos(), self.radius, 1);
        state.copy_screen(1, 0);
        state.copy_screen_with_transparency(2, 0);
    }
}

/// A 512 by 512 canvas, surfaces 0 to 2 cleared, the pattern on surface 2,
/// colour 1 transparent and colour 0 opaque.
pub fn new(state: &mut State) -> (r: Erase)
    requires
        old(state).wf(),
    ensures
        final(state).wf(),
        r.last_mouse is None && r.radius == 10 && r.count == 0,
        prepared(final(state), old(state), ERASE_SIZE as int),
        final(state).transparency@ == old(state).transparency@.update(0, false).update(1, true),
{
    prepare(state, ERASE_SIZE);
    let ghost mid = *state;
    state.palt(0, false);
    state.palt(1, true);
    proof {
        let ghost s1 = *state;
        if old(state).offset == (Point { x: 0, y: 0 }) {
            assert forall|a: int, b: int|
                s1.on_canvas(a, b) && a < GRID * (ERASE_SIZE as int / GRID as int) && b < GRID * (ERASE_SIZE as int
                    / GRID as int) implies #[trigger] s1.px(2, a, b) == block_color(
                a / (ERASE_SIZE as int / GRID as int),
                b / (ERASE_SIZE as int / GRID as int),
                0,
                false,
            ) as u8 by {
                assert(mid.on_canvas(a, b));
                assert(mid.px(2, a, b) == s1.px(2, a, b));
            }
        }
    }
    Erase { last_mouse: None, radius: 10, count: 0 }
}

} // verus!
