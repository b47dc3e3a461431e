//! The drawing state: canvas size, target surface, camera offset, clip
//! rectangle, transparency flags, palette and the four pixel surfaces.
use vstd::prelude::*;
use crate::geometry::{wrap_byte, wrap_spec};

verus! {

pub const MAX_WIDTH: usize = 1024;
pub const MAX_HEIGHT: usize = 1024;
/// Capacity in bytes of every surface, whatever the canvas size.
pub const MAX_SCREEN_SIZE: usize = 1048576;
pub const NUM_COLORS: usize = 256;
/// Number of surfaces: surface 0 is the one shown, 1 to 3 are auxiliary.
pub const SURFACE_COUNT: usize = 4;
pub const DEFAULT_WIDTH: usize = 128;
pub const DEFAULT_HEIGHT: usize = 128;

/// The sixteen default palette colours, as red, green, blue triples.
pub const DEFAULT_COLORS: [u8; 48] = [
    0, 0, 0, 29, 43, 83, 126, 37, 83, 0, 135, 81, 171, 82, 54, 95, 87, 79, 194, 195, 199, 255,
    241, 232, 255, 0, 77, 255, 164, 0, 255, 236, 39, 0, 228, 54, 41, 173, 255, 131, 118, 156, 255,
    119, 168, 255, 204, 170,
];

#[derive(Clone, Copy, Debug, PartialEq, Eq, Structural)]
pub struct Point {
    pub x: i32,
    pub y: i32,
}

/// Pixel bounds of span fills: columns `l..r` and rows `t..b`.
#[derive(Clone, Copy, Debug, PartialEq, Eq, Structural)]
pub struct ClipRect {
    pub l: i64,
    pub t: i64,
    pub r: i64,
    pub b: i64,
}

#[derive(Clone, Copy, Debug, PartialEq, Eq)]
pub enum EngineError {
    /// The requested canvas holds more pixels than a surface can.
    CanvasTooLarge,
    /// A surface id outside `0..4`.
    InvalidSurface,
    /// A sprite sheet shorter than its header says, or larger than the canvas.
    MalformedSpriteSheet,
}

pub struct State {
    pub offset: Point,
    pub width: usize,
    pub height: usize,
    pub target: u8,
    pub clip_rect: ClipRect,
    /// One flag per palette index.
    pub transparency: Vec<bool>,
    /// Per scanline, the leftmost and rightmost column touched by an outline.
    pub sides_left: Vec<i64>,
    pub sides_right: Vec<i64>,
    /// All four surfaces, surface `s` at `s * MAX_SCREEN_SIZE`, rows of `width` bytes.
    pub surfaces: Vec<u8>,
    /// 256 red, green, blue triples.
    pub palette: Vec<u8>,
    pub palette_swap: Vec<u8>,
}

/// Whether a canvas of `w` by `h` fits a surface. Each side must also be an
/// `i64`, the type that coordinates are compared with.
pub open spec fn dims_fit(w: int, h: int) -> bool {
    &&& 0 <= w <= i64::MAX
    &&& 0 <= h <= i64::MAX
    &&& w * h <= MAX_SCREEN_SIZE
}

impl State {
    pub open spec fn wf(&self) -> bool {
        &&& dims_fit(self.width as int, self.height as int)
        &&& (self.width > 0 ==> self.height <= MAX_SCREEN_SIZE)
        &&& (self.height > 0 ==> self.width <= MAX_SCREEN_SIZE)
        &&& self.target < SURFACE_COUNT
        &&& self.transparency@.len() == NUM_COLORS
        &&& self.sides_left@.len() == MAX_SCREEN_SIZE
        &&& self.sides_right@.len() == MAX_SCREEN_SIZE
        &&& self.surfaces@.len() == SURFACE_COUNT * MAX_SCREEN_SIZE
        &&& self.palette@.len() == NUM_COLORS * 3
        &&& self.palette_swap@.len() == NUM_COLORS
        &&& 0 <= self.clip_rect.l
        &&& 0 <= self.clip_rect.t
        &&& self.clip_rect.r <= self.width
        &&& self.clip_rect.b <= self.height
        &&& self.clip_rect.l <= 0x1_0000_0000
        &&& self.clip_rect.t <= 0x1_0000_0000
        &&& -0x1_0000_0000 <= self.clip_rect.r
        &&& -0x1_0000_0000 <= self.clip_rect.b
    }

    /// Rows that the span buffer keeps: all canvas rows, since a canvas with
    /// a column has at most `MAX_SCREEN_SIZE` rows.
    pub open spec fn span_rows(&self) -> int {
        if self.height < MAX_SCREEN_SIZE {
            self.height as int
        } else {
            MAX_SCREEN_SIZE as int
        }
    }

    /// Position in `surfaces` of pixel `(x, y)` of surface `s`.
    pub open spec fn idx(&self, s: int, x: int, y: int) -> int {
        s * MAX_SCREEN_SIZE + y * self.width + x
    }

    pub open spec fn px(&self, s: int, x: int, y: int) -> u8 {
        self.surfaces@[self.idx(s, x, y)]
    }

    pub open spec fn on_canvas(&self, x: int, y: int) -> bool {
        0 <= x < self.width && 0 <= y < self.height
    }

    /// Whether `(x, y)` is a canvas pixel inside the clip rectangle.
    pub open spec fn clipped_canvas(&self, x: int, y: int) -> bool {
        &&& self.on_canvas(x, y)
        &&& self.clip_rect.l <= x < self.clip_rect.r
        &&& self.clip_rect.t <= y < self.clip_rect.b
    }

    /// Whether position `i` of `surfaces` is a canvas pixel of surface `s`.
    pub open spec fn in_surface(&self, s: int, i: int) -> bool {
        s * MAX_SCREEN_SIZE <= i < s * MAX_SCREEN_SIZE + self.width * self.height
    }

    /// Device column of logical column `x`, after the camera offset.
    pub open spec fn dev_x(&self, x: int) -> int {
        x - self.offset.x
    }

    pub open spec fn dev_y(&self, y: int) -> int {
        y - self.offset.y
    }

    /// Surface `s`, trailing bytes included, holds colour 0, and every other
    /// byte is as in `o`.
    pub open spec fn cleared(&self, o: &State, s: int) -> bool {
        &&& self.surfaces@.len() == o.surfaces@.len()
        &&& forall|i: int|
            0 <= i < self.surfaces@.len() ==> #[trigger] self.surfaces@[i] == if s * MAX_SCREEN_SIZE
                <= i < (s + 1) * MAX_SCREEN_SIZE {
                0
            } else {
                o.surfaces@[i]
            }
    }

    /// Everything but the pixels and the scanline spans is the same in both states.
    pub open spec fn same_settings(&self, o: &State) -> bool {
        &&& self.offset == o.offset
        &&& self.width == o.width
        &&& self.height == o.height
        &&& self.target == o.target
        &&& self.clip_rect == o.clip_rect
        &&& self.transparency@ == o.transparency@
        &&& self.palette@ == o.palette@
        &&& self.palette_swap@ == o.palette_swap@
        &&& self.surfaces@.len() == o.surfaces@.len()
        &&& self.sides_left@.len() == o.sides_left@.len()
        &&& self.sides_right@.len() == o.sides_right@.len()
    }

    /// Pixels outside the canvas of surface `s` are the same in both states.
    pub open spec fn only_surface_changed(&self, o: &State, s: int) -> bool {
        forall|i: int|
            0 <= i < self.surfaces@.len() && !o.in_surface(s, i) ==> #[trigger] self.surfaces@[i]
                == o.surfaces@[i]
    }

    /// Canvas pixel `(x, y)` of the target after a change that sets exactly the
    /// pixels that `hit` holds to colour `c`.
    pub open spec fn painted(&self, o: &State, hit: spec_fn(int, int) -> bool, c: u8) -> bool {
        &&& self.same_settings(o)
        &&& self.only_surface_changed(o, o.target as int)
        &&& forall|x: int, y: int|
            o.on_canvas(x, y) ==> #[trigger] self.px(o.target as int, x, y) == if hit(x, y) {
                c
            } else {
                o.px(o.target as int, x, y)
            }
    }

    /// The state that the engine starts from: a 128 by 128 canvas, surface 0
    /// as target, no offset, the default palette and only colour 0 transparent.
    pub fn new() -> (r: State)
        ensures
            r.wf(),
            r.width == DEFAULT_WIDTH,
            r.height == DEFAULT_HEIGHT,
            r.target == 0,
            r.offset == (Point { x: 0, y: 0 }),
            r.clip_rect == (ClipRect { l: 0, t: 0, r: DEFAULT_WIDTH as i64, b: DEFAULT_HEIGHT as i64 }),
            forall|i: int| 0 <= i < r.surfaces@.len() ==> r.surfaces@[i] == 0,
            forall|i: int| 0 <= i < NUM_COLORS ==> r.transparency@[i] == (i == 0),
            forall|i: int| 0 <= i < 48 ==> r.palette@[i] == DEFAULT_COLORS[i],
            forall|i: int| 48 <= i < NUM_COLORS * 3 ==> r.palette@[i] == 0,
            forall|i: int| 0 <= i < NUM_COLORS ==> r.palette_swap@[i] == i,
    {
        let mut transparency: Vec<bool> = Vec::new();
        let mut palette: Vec<u8> = Vec::new();
        let mut palette_swap: Vec<u8> = Vec::new();
        let mut i: usize = 0;
        while i < NUM_COLORS
            invariant
                i <= NUM_COLORS,
                transparency@.len() == i,
                palette_swap@.len() == i,
                forall|j: int| 0 <= j < i ==> transparency@[j] == (j == 0),
                forall|j: int| 0 <= j < i ==> palette_swap@[j] == j,
            decreases NUM_COLORS - i,
        {
            transparency.push(i == 0);
            palette_swap.push(i as u8);
            i = i + 1;
        }
        let mut i: usize = 0;
        while i < NUM_COLORS * 3
            invariant
                i <= NUM_COLORS * 3,
                palette@.len() == i,
                forall|j: int| 0 <= j < i && j < 48 ==> palette@[j] == DEFAULT_COLORS[j],
                forall|j: int| 48 <= j < i ==> palette@[j] == 0,
            decreases NUM_COLORS * 3 - i,
        {
            if i < 48 {
                palette.push(DEFAULT_COLORS[i]);
            } else {
                palette.push(0);
            }
            i = i + 1;
        }
        let surfaces: Vec<u8> = vec![0u8; SURFACE_COUNT * MAX_SCREEN_SIZE];
        let sides_left: Vec<i64> = vec![0i64; MAX_SCREEN_SIZE];
        let sides_right: Vec<i64> = vec![0i64; MAX_SCREEN_SIZE];
        State {
            offset: Point { x: 0, y: 0 },
            width: DEFAULT_WIDTH,
            height: DEFAULT_HEIGHT,
            target: 0,
            clip_rect: ClipRect { l: 0, t: 0, r: DEFAULT_WIDTH as i64, b: DEFAULT_HEIGHT as i64 },
            transparency,
            sides_left,
            sides_right,
            surfaces,
            palette,
            palette_swap,
        }
    }
}

/// The palette index that a colour value is drawn with.
pub open spec fn color_of(c: int) -> u8 {
    wrap_spec(c) as u8
}

pub proof fn lemma_idx_in_surface(st: &State, s: int, x: int, y: int)
    requires
        st.wf(),
        0 <= s < SURFACE_COUNT,
        st.on_canvas(x, y),
    ensures
        st.in_surface(s, st.idx(s, x, y)),
        0 <= st.idx(s, x, y) < st.surfaces@.len(),
        0 <= y * st.width + x < st.width * st.height,
{
    let w = st.width as int;
    let h = st.height as int;
    assert(y * w + x < w * h) by (nonlinear_arith)
        requires
            0 <= x < w,
            0 <= y < h,
    ;
    assert(0 <= y * w) by (nonlinear_arith)
        requires
            0 <= y,
            0 <= w,
    ;
}

pub proof fn lemma_idx_unique(st: &State, s: int, x: int, y: int, x2: int, y2: int)
    requires
        st.on_canvas(x, y),
        st.on_canvas(x2, y2),
        st.idx(s, x, y) == st.idx(s, x2, y2),
    ensures
        x == x2,
        y == y2,
{
    let w = st.width as int;
    assert(y == y2) by (nonlinear_arith)
        requires
            0 <= x < w,
            0 <= x2 < w,
            y * w + x == y2 * w + x2,
    {
        if y < y2 {
            assert(y2 * w >= (y + 1) * w);
        } else if y > y2 {
            assert(y * w >= (y2 + 1) * w);
        }
    }
}

/// The canvases of two different surfaces do not overlap.
pub proof fn lemma_surfaces_disjoint(st: &State, s: int, t: int, i: int)
    requires
        st.wf(),
        0 <= s < SURFACE_COUNT,
        0 <= t < SURFACE_COUNT,
        st.in_surface(s, i),
        st.in_surface(t, i),
    ensures
        s == t,
{
    if s < t {
        assert(s * MAX_SCREEN_SIZE + MAX_SCREEN_SIZE <= t * MAX_SCREEN_SIZE) by (nonlinear_arith)
            requires
                s < t,
        ;
    } else if t < s {
        assert(t * MAX_SCREEN_SIZE + MAX_SCREEN_SIZE <= s * MAX_SCREEN_SIZE) by (nonlinear_arith)
            requires
                t < s,
        ;
    }
}

/// Painting `h1` and then `h2` with one colour paints their union.
pub proof fn lemma_paint_compose(
    s0: &State,
    s1: &State,
    s2: &State,
    h1: spec_fn(int, int) -> bool,
    h2: spec_fn(int, int) -> bool,
    h3: spec_fn(int, int) -> bool,
    c: u8,
)
    requires
        s1.painted(s0, h1, c),
        s2.painted(s1, h2, c),
        forall|a: int, b: int| #[trigger] h3(a, b) == (h1(a, b) || h2(a, b)),
    ensures
        s2.painted(s0, h3, c),
{
    assert forall|x: int, y: int| s0.on_canvas(x, y) implies #[trigger] s2.px(s0.target as int, x, y)
        == if h3(x, y) { c } else { s0.px(s0.target as int, x, y) } by {
        assert(s1.on_canvas(x, y));
        assert(h3(x, y) == (h1(x, y) || h2(x, y)));
    }
}

/// A paint is the same whichever of two tests that agree everywhere describes it.
pub proof fn lemma_paint_same(
    s0: &State,
    s1: &State,
    h: spec_fn(int, int) -> bool,
    h2: spec_fn(int, int) -> bool,
    c: u8,
)
    requires
        s1.painted(s0, h, c),
        forall|a: int, b: int| s0.on_canvas(a, b) ==> #[trigger] h2(a, b) == h(a, b),
    ensures
        s1.painted(s0, h2, c),
{
    assert forall|a: int, b: int| s0.on_canvas(a, b) implies #[trigger] s1.px(s0.target as int, a, b)
        == if h2(a, b) { c } else { s0.px(s0.target as int, a, b) } by {
        assert(h2(a, b) == h(a, b));
    }
}

/// Painting with a test that is false everywhere on the canvas changes nothing.
pub proof fn lemma_paint_nothing(s0: &State, h: spec_fn(int, int) -> bool, c: u8)
    requires
        forall|a: int, b: int| s0.on_canvas(a, b) ==> !#[trigger] h(a, b),
    ensures
        s0.painted(s0, h, c),
{
}

impl State {
    /// Writes colour `c` at device pixel `(x, y)` of the target surface.
    pub(crate) fn put(&mut self, x: i64, y: i64, c: u8)
        requires
            old(self).wf(),
            old(self).on_canvas(x as int, y as int),
        ensures
            final(self).wf(),
            final(self).painted(old(self), |a: int, b: int| a == x && b == y, c),
            final(self).sides_left@ == old(self).sides_left@,
            final(self).sides_right@ == old(self).sides_right@,
    {
        proof {
            lemma_idx_in_surface(self, self.target as int, x as int, y as int);
        }
        let i = (self.target as usize) * MAX_SCREEN_SIZE + (y as usize) * self.width + (x as usize);
        self.surfaces.set(i, c);
        proof {
            let ghost o = *old(self);
            assert forall|a: int, b: int| o.on_canvas(a, b) implies #[trigger] self.px(
                o.target as int,
                a,
                b,
            ) == if a == x && b == y {
                c
            } else {
                o.px(o.target as int, a, b)
            } by {
                lemma_idx_in_surface(&o, o.target as int, a, b);
                if o.idx(o.target as int, a, b) == i {
                    lemma_idx_unique(&o, o.target as int, a, b, x as int, y as int);
                }
            }
        }
    }

    /// Writes `v` at device pixel `(x, y)` of surface `s`.
    pub(crate) fn put_at(&mut self, s: u8, x: i64, y: i64, v: u8)
        requires
            old(self).wf(),
            s < SURFACE_COUNT,
            old(self).on_canvas(x as int, y as int),
        ensures
            final(self).wf(),
            final(self).same_settings(old(self)),
            final(self).only_surface_changed(old(self), s as int),
            final(self).sides_left@ == old(self).sides_left@,
            final(self).sides_right@ == old(self).sides_right@,
            forall|s2: int, a: int, b: int|
                0 <= s2 < SURFACE_COUNT && old(self).on_canvas(a, b) ==> #[trigger] final(self).px(
                    s2,
                    a,
                    b,
                ) == if s2 == s && a == x && b == y {
                    v
                } else {
                    old(self).px(s2, a, b)
                },
    {
        proof {
            lemma_idx_in_surface(self, s as int, x as int, y as int);
        }
        let i = (s as usize) * MAX_SCREEN_SIZE + (y as usize) * self.width + (x as usize);
        self.surfaces.set(i, v);
        proof {
            let ghost o = *old(self);
            assert forall|s2: int, a: int, b: int|
                0 <= s2 < SURFACE_COUNT && o.on_canvas(a, b) implies #[trigger] self.px(s2, a, b)
                == if s2 == s && a == x && b == y {
                v
            } else {
                o.px(s2, a, b)
            } by {
                lemma_idx_in_surface(&o, s2, a, b);
                if o.idx(s2, a, b) == i {
                    lemma_surfaces_disjoint(&o, s2, s as int, i as int);
                    lemma_idx_unique(&o, s2, a, b, x as int, y as int);
                }
            }
        }
    }

    /// Puts back the start-up settings: the sixteen default colours in the
    /// first 48 palette bytes (the rest of the palette is kept), an identity
    /// palette swap, only colour 0 transparent, no camera offset, a 128 by 128
    /// canvas with a full clip, and surface 0 as target.
    pub fn reset(&mut self)
        requires
            old(self).wf(),
        ensures
            final(self).wf(),
            forall|i: int| 0 <= i < 48 ==> #[trigger] final(self).palette@[i] == DEFAULT_COLORS[i],
            forall|i: int|
                48 <= i < NUM_COLORS * 3 ==> #[trigger] final(self).palette@[i] == old(
                    self,
                ).palette@[i],
            forall|i: int| 0 <= i < NUM_COLORS ==> #[trigger] final(self).palette_swap@[i] == i,
            forall|i: int| 0 <= i < NUM_COLORS ==> #[trigger] final(self).transparency@[i] == (i == 0),
            final(self).palette@.len() == NUM_COLORS * 3,
            final(self).offset == (Point { x: 0, y: 0 }),
            final(self).width == DEFAULT_WIDTH,
            final(self).height == DEFAULT_HEIGHT,
            final(self).clip_rect == (ClipRect { l: 0, t: 0, r: DEFAULT_WIDTH as i64, b: DEFAULT_HEIGHT as i64 }),
            final(self).target == 0,
            final(self).surfaces@ == old(self).surfaces@,
    {
        let mut i: usize = 0;
        while i < 48
            invariant
                self.wf(),
                i <= 48,
                self.surfaces@ == old(self).surfaces@,
                self.width == old(self).width && self.height == old(self).height,
                forall|k: int| 0 <= k < i ==> #[trigger] self.palette@[k] == DEFAULT_COLORS[k],
                forall|k: int|
                    i <= k < NUM_COLORS * 3 ==> #[trigger] self.palette@[k] == old(self).palette@[k],
            decreases 48 - i,
        {
            self.palette.set(i, DEFAULT_COLORS[i]);
            i = i + 1;
        }
        let mut i: usize = 0;
        while i < NUM_COLORS
            invariant
                self.wf(),
                i <= NUM_COLORS,
                self.surfaces@ == old(self).surfaces@,
                forall|k: int| 0 <= k < 48 ==> #[trigger] self.palette@[k] == DEFAULT_COLORS[k],
                forall|k: int|
                    48 <= k < NUM_COLORS * 3 ==> #[trigger] self.palette@[k] == old(self).palette@[k],
                forall|k: int| 0 <= k < i ==> #[trigger] self.palette_swap@[k] == k,
                forall|k: int| 0 <= k < i ==> #[trigger] self.transparency@[k] == (k == 0),
            decreases NUM_COLORS - i,
        {
            self.palette_swap.set(i, i as u8);
            self.transparency.set(i, i == 0);
            i = i + 1;
        }
        self.offset = Point { x: 0, y: 0 };
        self.width = DEFAULT_WIDTH;
        self.height = DEFAULT_HEIGHT;
        self.clip_rect = ClipRect { l: 0, t: 0, r: DEFAULT_WIDTH as i64, b: DEFAULT_HEIGHT as i64 };
        self.target = 0;
    }

    pub fn get_target(&self) -> (r: u8)
        ensures
            r == self.target,
    {
        self.target
    }

    /// Selects the surface that drawing writes to.
    pub fn set_target(&mut self, target: u8) -> (r: Result<(), EngineError>)
        requires
            old(self).wf(),
        ensures
            final(self).wf(),
            r is Ok <==> target < SURFACE_COUNT,
            r is Ok ==> *final(self) == (State { target, ..*old(self) }),
            r is Err ==> r == Err::<(), EngineError>(EngineError::InvalidSurface) && *final(self)
                == *old(self),
    {
        if (target as usize) < SURFACE_COUNT {
            self.target = target;
            Ok(())
        } else {
            Err(EngineError::InvalidSurface)
        }
    }

    #[allow(non_snake_case)]
    pub fn WIDTH(&self) -> (r: usize)
        ensures
            r == self.width,
    {
        self.width
    }

    #[allow(non_snake_case)]
    pub fn HEIGHT(&self) -> (r: usize)
        ensures
            r == self.height,
    {
        self.height
    }

    /// Changes the canvas size and resets the clip rectangle to the whole canvas.
    pub fn set_dimensions(&mut self, width: usize, height: usize) -> (r: Result<(), EngineError>)
        requires
            old(self).wf(),
        ensures
            final(self).wf(),
            r is Ok <==> dims_fit(width as int, height as int),
            r is Ok ==> *final(self) == (State {
                width,
                height,
                clip_rect: ClipRect { l: 0, t: 0, r: width as i64, b: height as i64 },
                ..*old(self)
            }),
            r is Err ==> r == Err::<(), EngineError>(EngineError::CanvasTooLarge) && *final(self)
                == *old(self),
    {
        if width as u128 > i64::MAX as u128 || height as u128 > i64::MAX as u128 {
            return Err(EngineError::CanvasTooLarge);
        }
        assert((width as int) * (height as int) <= i64::MAX as int * i64::MAX as int)
            by (nonlinear_arith)
            requires
                width <= i64::MAX,
                height <= i64::MAX,
        ;
        if (width as u128) * (height as u128) > MAX_SCREEN_SIZE as u128 {
            return Err(EngineError::CanvasTooLarge);
        }
        assert((width > 0 ==> height <= MAX_SCREEN_SIZE) && (height > 0 ==> width <= MAX_SCREEN_SIZE))
            by (nonlinear_arith)
            requires
                (width as int) * (height as int) <= MAX_SCREEN_SIZE,
        ;
        self.width = width;
        self.height = height;
        self.clip_rect = ClipRect { l: 0, t: 0, r: width as i64, b: height as i64 };
        Ok(())
    }

    /// Sets the clip rectangle to `x..x + w` by `y..y + h`, cut to the canvas.
    /// A rectangle off the canvas leaves an empty clip (right below left or
    /// bottom above top), which disables fills.
    pub fn set_clip(&mut self, x: i32, y: i32, w: i32, h: i32)
        requires
            old(self).wf(),
        ensures
            final(self).wf(),
            *final(self) == (State {
                clip_rect: ClipRect {
                    l: if x < 0 { 0 } else { x as i64 },
                    t: if y < 0 { 0 } else { y as i64 },
                    r: if x + w > old(self).width { old(self).width as i64 } else { (x + w) as i64 },
                    b: if y + h > old(self).height { old(self).height as i64 } else { (y + h) as i64 },
                },
                ..*old(self)
            }),
    {
        let width = self.width as i64;
        let height = self.height as i64;
        let l: i64 = if x < 0 { 0 } else { x as i64 };
        let t: i64 = if y < 0 { 0 } else { y as i64 };
        let r: i64 = if x as i64 + w as i64 > width { width } else { x as i64 + w as i64 };
        let b: i64 = if y as i64 + h as i64 > height { height } else { y as i64 + h as i64 };
        self.clip_rect = ClipRect { l, t, r, b };
    }

    /// Sets the camera offset that is subtracted from every drawing coordinate.
    pub fn camera_set(&mut self, x: i32, y: i32)
        requires
            old(self).wf(),
        ensures
            final(self).wf(),
            *final(self) == (State { offset: Point { x, y }, ..*old(self) }),
    {
        self.offset = Point { x, y };
    }

    /// Flags palette index `c` as transparent or opaque.
    pub fn palt(&mut self, c: u8, t: bool)
        requires
            old(self).wf(),
        ensures
            final(self).wf(),
            final(self).transparency@ == old(self).transparency@.update(c as int, t),
            *final(self) == (State { transparency: final(self).transparency, ..*old(self) }),
    {
        self.transparency.set(c as usize, t);
    }

    /// Device coordinates of logical point `(x, y)`.
    pub fn offset_point(&self, x: i32, y: i32) -> (r: (i64, i64))
        ensures
            r.0 == self.dev_x(x as int),
            r.1 == self.dev_y(y as int),
    {
        (x as i64 - self.offset.x as i64, y as i64 - self.offset.y as i64)
    }

    pub fn is_x_on_screen(&self, x: i64) -> (r: bool)
        requires
            self.wf(),
        ensures
            r == (0 <= x < self.width),
    {
        x >= 0 && x < self.width as i64
    }

    pub fn is_y_on_screen(&self, y: i64) -> (r: bool)
        requires
            self.wf(),
        ensures
            r == (0 <= y < self.height),
    {
        y >= 0 && y < self.height as i64
    }

    pub fn is_point_on_screen(&self, x: i64, y: i64) -> (r: bool)
        requires
            self.wf(),
        ensures
            r == self.on_canvas(x as int, y as int),
    {
        self.is_x_on_screen(x) && self.is_y_on_screen(y)
    }

    /// Clamps a column into `0..width` (to 0 on an empty canvas).
    pub fn limit_x(&self, x: i64) -> (r: i64)
        requires
            self.wf(),
        ensures
            r == limit_spec(x as int, self.width as int),
    {
        let hi = self.width as i64 - 1;
        let m = if x > hi { hi } else { x };
        if m < 0 { 0 } else { m }
    }

    /// Clamps a row into `0..height` (to 0 on an empty canvas).
    pub fn limit_y(&self, y: i64) -> (r: i64)
        requires
            self.wf(),
        ensures
            r == limit_spec(y as int, self.height as int),
    {
        let hi = self.height as i64 - 1;
        let m = if y > hi { hi } else { y };
        if m < 0 { 0 } else { m }
    }

    pub fn limit_point(&self, x: i64, y: i64) -> (r: (i64, i64))
        requires
            self.wf(),
        ensures
            r.0 == limit_spec(x as int, self.width as int),
            r.1 == limit_spec(y as int, self.height as int),
    {
        (self.limit_x(x), self.limit_y(y))
    }
}

/// `v` clamped to `0..n`, and to 0 where `n` is 0.
pub open spec fn limit_spec(v: int, n: int) -> int {
    let m = if v > n - 1 { n - 1 } else { v };
    if m < 0 { 0 } else { m }
}

} // verus!
