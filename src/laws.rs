//! Properties that relate several operations, proved from their contracts.
use vstd::prelude::*;
use crate::compositor::copied;
use crate::engine::{color_of, lemma_idx_in_surface, State, MAX_SCREEN_SIZE, SURFACE_COUNT};
use crate::fills::span_hit;

verus! {

pub open spec fn min2(a: int, b: int) -> int {
    if a <= b { a } else { b }
}

pub open spec fn max2(a: int, b: int) -> int {
    if a <= b { b } else { a }
}

/// After `rect_fill` whose top-left or bottom-right corner is on the canvas, reading back any logical
/// point whose device position lies on the canvas between the corners gives
/// the fill colour, and any other point reads as before.
pub proof fn lemma_rect_fill_readback(
    s0: &State,
    s1: &State,
    x0: int,
    y0: int,
    x1: int,
    y1: int,
    c: int,
    x: int,
    y: int,
)
    requires
        s0.wf(),
        s1.painted(s0, s0.rect_fill_hit(x0, y0, x1, y1), color_of(c)),
        s0.on_canvas(min2(s0.dev_x(x0), s0.dev_x(x1)), min2(s0.dev_y(y0), s0.dev_y(y1)))
            || s0.on_canvas(max2(s0.dev_x(x0), s0.dev_x(x1)), max2(s0.dev_y(y0), s0.dev_y(y1))),
    ensures
        s0.on_canvas(s0.dev_x(x), s0.dev_y(y)) && crate::raster::between(
            s0.dev_x(x),
            s0.dev_y(y),
            s0.dev_x(x0),
            s0.dev_y(y0),
            s0.dev_x(x1),
            s0.dev_y(y1),
        ) ==> s1.pget_spec(x, y) == Some(color_of(c)),
        !crate::raster::between(
            s0.dev_x(x),
            s0.dev_y(y),
            s0.dev_x(x0),
            s0.dev_y(y0),
            s0.dev_x(x1),
            s0.dev_y(y1),
        ) ==> s1.pget_spec(x, y) == s0.pget_spec(x, y),
{
    let (a, b) = (s0.dev_x(x), s0.dev_y(y));
    if s0.on_canvas(a, b) {
        assert(s1.px(s0.target as int, a, b) == if s0.rect_fill_hit(x0, y0, x1, y1)(a, b) {
            color_of(c)
        } else {
            s0.px(s0.target as int, a, b)
        });
    }
}

/// A one-point `line` (through its horizontal case, a one-pixel
/// `rect_fill`) sets exactly that pixel.
pub proof fn lemma_point_line(s0: &State, s1: &State, x: int, y: int, c: int)
    requires
        s0.wf(),
        s1.painted(s0, s0.rect_fill_hit(x, y, x, y), color_of(c)),
    ensures
        forall|a: int, b: int|
            s0.on_canvas(a, b) ==> #[trigger] s1.px(s0.target as int, a, b) == if a == s0.dev_x(x)
                && b == s0.dev_y(y) {
                color_of(c)
            } else {
                s0.px(s0.target as int, a, b)
            },
{
    assert forall|a: int, b: int| s0.on_canvas(a, b) implies #[trigger] s1.px(
        s0.target as int,
        a,
        b,
    ) == if a == s0.dev_x(x) && b == s0.dev_y(y) {
        color_of(c)
    } else {
        s0.px(s0.target as int, a, b)
    } by {
        assert(s0.rect_fill_hit(x, y, x, y)(a, b) == (a == s0.dev_x(x) && b == s0.dev_y(y)));
    }
}

/// Clearing to one colour and then filling the whole canvas with another
/// leaves the second colour everywhere on the canvas.
pub proof fn lemma_clear_then_fill(s0: &State, s1: &State, s2: &State, bg: int, bg2: int)
    requires
        s0.wf(),
        s1.same_settings(s0),
        forall|a: int, b: int|
            s0.on_canvas(a, b) ==> #[trigger] s1.px(s0.target as int, a, b) == color_of(bg),
        s2.painted(
            s1,
            s1.rect_fill_hit(
                s1.offset.x as int,
                s1.offset.y as int,
                s1.offset.x + s1.width - 1,
                s1.offset.y + s1.height - 1,
            ),
            color_of(bg2),
        ),
    ensures
        forall|x: int, y: int|
            s0.on_canvas(s0.dev_x(x), s0.dev_y(y)) ==> #[trigger] s2.pget_spec(x, y) == Some(
                color_of(bg2),
            ),
{
    assert forall|x: int, y: int| s0.on_canvas(s0.dev_x(x), s0.dev_y(y)) implies #[trigger] s2.pget_spec(
        x,
        y,
    ) == Some(color_of(bg2)) by {
        let (a, b) = (s1.dev_x(x), s1.dev_y(y));
        assert(s1.on_canvas(a, b));
        assert(s1.on_canvas(0, 0));
        assert(s1.rect_fill_hit(
            s1.offset.x as int,
            s1.offset.y as int,
            s1.offset.x + s1.width - 1,
            s1.offset.y + s1.height - 1,
        )(a, b));
    }
}

/// After a transparency-keyed canvas copy, each canvas pixel of the target
/// holds the source pixel where that colour is not transparent, and its old
/// colour elsewhere.
pub proof fn lemma_keyed_copy_pixels(s0: &State, s1: &State, source: int, target: int)
    requires
        s0.wf(),
        0 <= source < SURFACE_COUNT,
        0 <= target < SURFACE_COUNT,
        s1.same_settings(s0),
        forall|i: int|
            0 <= i < s0.surfaces@.len() ==> #[trigger] s1.surfaces@[i] == copied(
                s0,
                source,
                target,
                i,
                |k: int| s0.transparency@[s0.surfaces@[source * MAX_SCREEN_SIZE + k] as int],
            ),
    ensures
        forall|x: int, y: int|
            s0.on_canvas(x, y) ==> #[trigger] s1.px(target, x, y) == if !s0.transparency@[s0.px(
                source,
                x,
                y,
            ) as int] {
                s0.px(source, x, y)
            } else {
                s0.px(target, x, y)
            },
{
    assert forall|x: int, y: int| s0.on_canvas(x, y) implies #[trigger] s1.px(target, x, y)
        == if !s0.transparency@[s0.px(source, x, y) as int] {
        s0.px(source, x, y)
    } else {
        s0.px(target, x, y)
    } by {
        lemma_idx_in_surface(s0, target, x, y);
        let i = s0.idx(target, x, y);
        assert(s1.surfaces@[i] == copied(
            s0,
            source,
            target,
            i,
            |k: int| s0.transparency@[s0.surfaces@[source * MAX_SCREEN_SIZE + k] as int],
        ));
        assert(i - target * MAX_SCREEN_SIZE + source * MAX_SCREEN_SIZE == s0.idx(source, x, y));
    }
}

/// A scan fill changes no pixel outside the clip rectangle, whatever the
/// spans hold; with the clip set to the canvas this bounds every fill.
pub proof fn lemma_fill_within_clip(
    s0: &State,
    s1: &State,
    left: Seq<i64>,
    right: Seq<i64>,
    yt: int,
    yb: int,
    extra: int,
    c: u8,
)
    requires
        s1.painted(s0, span_hit(s0.clip_rect, left, right, yt, yb, extra), c),
    ensures
        forall|a: int, b: int|
            s0.on_canvas(a, b) && !(s0.clip_rect.l <= a < s0.clip_rect.r && s0.clip_rect.t <= b
                < s0.clip_rect.b) ==> #[trigger] s1.px(s0.target as int, a, b) == s0.px(
                s0.target as int,
                a,
                b,
            ),
{
    assert forall|a: int, b: int|
        s0.on_canvas(a, b) && !(s0.clip_rect.l <= a < s0.clip_rect.r && s0.clip_rect.t <= b
            < s0.clip_rect.b) implies #[trigger] s1.px(s0.target as int, a, b) == s0.px(
        s0.target as int,
        a,
        b,
    ) by {
        assert(!span_hit(s0.clip_rect, left, right, yt, yb, extra)(a, b));
    }
}

/// The points of a traced circle stay points of it when turned a quarter
/// turn about the centre: each step emits four points that are quarter turns
/// of one another.
pub proof fn lemma_ring_quarter_turn(cx: int, cy: int, r: int, n: nat, a: int, b: int)
    requires
        crate::shapes::ring_points(cx, cy, r, n, a, b),
    ensures
        crate::shapes::ring_points(cx, cy, r, n, cx - (b - cy), cy + (a - cx)),
    decreases n,
{
    if n > 0 {
        if crate::shapes::ring_points(cx, cy, r, (n - 1) as nat, a, b) {
            lemma_ring_quarter_turn(cx, cy, r, (n - 1) as nat, a, b);
        }
    }
}

} // verus!
