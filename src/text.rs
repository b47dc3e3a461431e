//! Bitmap text: 8 by 8 glyphs for the printable ASCII characters, each set
//! bit drawn as a filled rectangle of the requested size.
use vstd::prelude::*;
use crate::engine::{color_of, lemma_paint_compose, lemma_paint_same, State};
use crate::geometry::wrap_byte;
use vstd::string::StringSliceAdditionalSpecFns;

verus! {

/// Glyph rows in a complete font: eight for each character from 33 to 127.
pub const FONT_LEN: usize = 760;
/// Cursor positions beyond this are far off any canvas: the cursor stops
/// there instead of growing without bound.
pub const CURSOR_LIMIT: i64 = 0x2_0000_0000;

/// Row `r` of the glyph of character `ch`; rows that a short font lacks are blank.
pub open spec fn glyph_byte(font: Seq<u8>, ch: int, r: int) -> u8 {
    let k = (ch - 33) * 8 + r;
    if k < font.len() {
        font[k]
    } else {
        0
    }
}

/// Whether column `c` of row `r` of the glyph of `ch` is set.
pub open spec fn glyph_bit(font: Seq<u8>, ch: int, r: int, c: int) -> bool {
    (glyph_byte(font, ch, r) >> (c as u8)) & 1u8 == 1u8
}

pub open spec fn advance(v: int, by: int) -> int {
    if v + by > CURSOR_LIMIT {
        CURSOR_LIMIT as int
    } else {
        v + by
    }
}

/// Where the cursor stands before byte `n` of text printed from `(x, y)`.
pub open spec fn cursor(bytes: Seq<u8>, x: int, y: int, n: nat) -> (int, int)
    decreases n,
{
    if n == 0 {
        (x, y)
    } else {
        let (cx, cy) = cursor(bytes, x, y, (n - 1) as nat);
        let ch = bytes[n - 1];
        if 32 < ch < 128 {
            (advance(cx, 8), cy)
        } else if ch == 13 {
            (cx, cy)
        } else if ch == 10 {
            (x, advance(cy, 9))
        } else if ch < 128 {
            (advance(cx, 8), cy)
        } else {
            (cx, cy)
        }
    }
}

impl State {
    /// Device pixel `(a, b)` lies in the cell drawn for column `c` of row `r`
    /// of a glyph at cursor `(cx, cy)`, `w` by `h` pixels.
    pub open spec fn cell_hit(&self, w: int, h: int, cx: int, cy: int, r: int, c: int, a: int, b: int) -> bool {
        self.rect_fill_hit(cx + c, cy + r, w - 1 + cx + c, h - 1 + cy + r)(a, b)
    }

    /// `(a, b)` lies in a cell of one of the first `k` columns of row `r`.
    pub open spec fn row_hit(
        &self,
        font: Seq<u8>,
        ch: int,
        w: int,
        h: int,
        cx: int,
        cy: int,
        r: int,
        k: nat,
        a: int,
        b: int,
    ) -> bool
        decreases k,
    {
        if k == 0 {
            false
        } else {
            self.row_hit(font, ch, w, h, cx, cy, r, (k - 1) as nat, a, b) || (glyph_bit(
                font,
                ch,
                r,
                k - 1,
            ) && self.cell_hit(w, h, cx, cy, r, k - 1, a, b))
        }
    }

    /// `(a, b)` lies in a cell of the first `n` rows of the glyph.
    pub open spec fn glyph_hit(
        &self,
        font: Seq<u8>,
        ch: int,
        w: int,
        h: int,
        cx: int,
        cy: int,
        n: nat,
        a: int,
        b: int,
    ) -> bool
        decreases n,
    {
        if n == 0 {
            false
        } else {
            self.glyph_hit(font, ch, w, h, cx, cy, (n - 1) as nat, a, b) || self.row_hit(
                font,
                ch,
                w,
                h,
                cx,
                cy,
                n - 1,
                8,
                a,
                b,
            )
        }
    }

    /// `(a, b)` lies in a cell drawn for the first `n` bytes of the text.
    pub open spec fn text_hit(
        &self,
        font: Seq<u8>,
        bytes: Seq<u8>,
        x: int,
        y: int,
        w: int,
        h: int,
        n: nat,
        a: int,
        b: int,
    ) -> bool
        decreases n,
    {
        if n == 0 {
            false
        } else {
            let (cx, cy) = cursor(bytes, x, y, (n - 1) as nat);
            self.text_hit(font, bytes, x, y, w, h, (n - 1) as nat, a, b) || (32 < bytes[n - 1] < 128
                && self.glyph_hit(font, bytes[n - 1] as int, w, h, cx, cy, 8, a, b))
        }
    }
}

/// Row `row` of the glyph of character `ch`, one bit per column.
fn glyph_row(font: &[u8], ch: u8, row: usize) -> (r: u8)
    requires
        33 <= ch < 128,
        row < 8,
    ensures
        r == glyph_byte(font@, ch as int, row as int),
{
    let k = ((ch - 33) as usize) * 8 + row;
    if k < font.len() {
        font[k]
    } else {
        0
    }
}

impl State {
    /// Prints `string` at logical `(x, y)` with glyph pixels `w` by `h` in
    /// colour `c`. Characters 33 to 127 draw the set bits of their glyph and
    /// advance the cursor by 8; a carriage return does nothing; a line feed
    /// returns to column `x` and moves down 9; any other character advances by
    /// 8 without drawing. Bytes of characters beyond ASCII are skipped.
    pub fn prnt(&mut self, font: &[u8], string: &str, x: i32, y: i32, w: i32, h: i32, c: i32)
        requires
            old(self).wf(),
        ensures
            final(self).wf(),
            final(self).painted(
                old(self),
                |a: int, b: int|
                    old(self).text_hit(
                        font@,
                        string.spec_bytes(),
                        x as int,
                        y as int,
                        w as int,
                        h as int,
                        string.spec_bytes().len(),
                        a,
                        b,
                    ),
                color_of(c as int),
            ),
            final(self).sides_left@ == old(self).sides_left@,
            final(self).sides_right@ == old(self).sides_right@,
    {
        let ghost s0 = *self;
        let col = wrap_byte(c);
        let bytes = string.as_bytes();
        let ghost (fs, bs) = (font@, bytes@);
        let ghost (gx, gy, gw, gh) = (x as int, y as int, w as int, h as int);
        let mut cx: i64 = x as i64;
        let mut cy: i64 = y as i64;
        let mut k: usize = 0;
        proof {
            crate::engine::lemma_paint_nothing(self, |a: int, b: int| s0.text_hit(fs, bs, gx, gy, gw, gh, 0, a, b), col);
        }
        while k < bytes.len()
            invariant
                self.wf(),
                s0 == *old(self),
                fs == font@,
                bs == bytes@,
                gx == x && gy == y && gw == w && gh == h,
                k <= bytes@.len(),
                self.painted(&s0, |a: int, b: int| s0.text_hit(fs, bs, gx, gy, gw, gh, k as nat, a, b), col),
                self.sides_left@ == s0.sides_left@,
                self.sides_right@ == s0.sides_right@,
                (cx as int, cy as int) == cursor(bs, gx, gy, k as nat),
                -0x8000_0000 <= cx <= CURSOR_LIMIT,
                -0x8000_0000 <= cy <= CURSOR_LIMIT,
            decreases bytes@.len() - k,
        {
            let ch = bytes[k];
            let ghost done = |a: int, b: int| s0.text_hit(fs, bs, gx, gy, gw, gh, k as nat, a, b);
            if ch > 32 && ch < 128 {
                let mut i: usize = 0;
                proof {
                    lemma_paint_same(&s0, self, done, |a: int, b: int| done(a, b) || s0.glyph_hit(fs, ch as int, gw, gh, cx as int, cy as int, 0, a, b), col);
                }
                while i < 8
                    invariant
                        self.wf(),
                        s0 == *old(self),
                        done == (|a: int, b: int| s0.text_hit(fs, bs, gx, gy, gw, gh, k as nat, a, b)),
                        gw == w && gh == h,
                        self.painted(&s0, |a: int, b: int| done(a, b) || s0.glyph_hit(fs, ch as int, gw, gh, cx as int, cy as int, i as nat, a, b), col),
                        self.sides_left@ == s0.sides_left@,
                        self.sides_right@ == s0.sides_right@,
                        fs == font@,
                        -0x8000_0000 <= cx <= CURSOR_LIMIT,
                        -0x8000_0000 <= cy <= CURSOR_LIMIT,
                        32 < ch < 128,
                        i <= 8,
                    decreases 8 - i,
                {
                    let line = glyph_row(font, ch, i);
                    let ghost before = |a: int, b: int| done(a, b) || s0.glyph_hit(fs, ch as int, gw, gh, cx as int, cy as int, i as nat, a, b);
                    let mut j: i64 = 0;
                    proof {
                        lemma_paint_same(&s0, self, before, |a: int, b: int| before(a, b) || s0.row_hit(fs, ch as int, gw, gh, cx as int, cy as int, i as int, 0, a, b), col);
                    }
                    while j < 8
                        invariant
                            self.wf(),
                            s0 == *old(self),
                            before == (|a: int, b: int| done(a, b) || s0.glyph_hit(fs, ch as int, gw, gh, cx as int, cy as int, i as nat, a, b)),
                            gw == w && gh == h,
                            self.painted(&s0, |a: int, b: int| before(a, b) || s0.row_hit(fs, ch as int, gw, gh, cx as int, cy as int, i as int, j as nat, a, b), col),
                            self.sides_left@ == s0.sides_left@,
                            self.sides_right@ == s0.sides_right@,
                            line == glyph_byte(fs, ch as int, i as int),
                            -0x8000_0000 <= cx <= CURSOR_LIMIT,
                            -0x8000_0000 <= cy <= CURSOR_LIMIT,
                            32 < ch < 128,
                            i < 8,
                            0 <= j <= 8,
                        decreases 8 - j,
                    {
                        let ghost hj = |a: int, b: int| before(a, b) || s0.row_hit(fs, ch as int, gw, gh, cx as int, cy as int, i as int, j as nat, a, b);
                        let ghost hj1 = |a: int, b: int| before(a, b) || s0.row_hit(fs, ch as int, gw, gh, cx as int, cy as int, i as int, (j + 1) as nat, a, b);
                        if (line >> (j as u8)) & 1 == 1 {
                            let px = cx + j;
                            let py = cy + i as i64;
                            let ghost s1 = *self;
                            self.fill_rect_at(px, py, w as i64 - 1 + px, h as i64 - 1 + py, col);
                            proof {
                                assert(glyph_bit(fs, ch as int, i as int, j as int));
                                lemma_paint_compose(
                                    &s0,
                                    &s1,
                                    self,
                                    hj,
                                    s1.rect_fill_hit(px as int, py as int, w - 1 + px, h - 1 + py),
                                    hj1,
                                    col,
                                );
                            }
                        } else {
                            proof {
                                assert(!glyph_bit(fs, ch as int, i as int, j as int));
                                lemma_paint_same(&s0, self, hj, hj1, col);
                            }
                        }
                        j = j + 1;
                    }
                    proof {
                        lemma_paint_same(&s0, self,
                            |a: int, b: int| before(a, b) || s0.row_hit(fs, ch as int, gw, gh, cx as int, cy as int, i as int, 8, a, b),
                            |a: int, b: int| done(a, b) || s0.glyph_hit(fs, ch as int, gw, gh, cx as int, cy as int, (i + 1) as nat, a, b),
                            col);
                    }
                    i = i + 1;
                }
                proof {
                    lemma_paint_same(&s0, self,
                        |a: int, b: int| done(a, b) || s0.glyph_hit(fs, ch as int, gw, gh, cx as int, cy as int, 8, a, b),
                        |a: int, b: int| s0.text_hit(fs, bs, gx, gy, gw, gh, (k + 1) as nat, a, b),
                        col);
                }
                cx = if cx + 8 > CURSOR_LIMIT { CURSOR_LIMIT } else { cx + 8 };
            } else {
                proof {
                    lemma_paint_same(&s0, self, done, |a: int, b: int| s0.text_hit(fs, bs, gx, gy, gw, gh, (k + 1) as nat, a, b), col);
                }
                if ch == 13 {
                } else if ch == 10 {
                    cx = x as i64;
                    cy = if cy + 9 > CURSOR_LIMIT { CURSOR_LIMIT } else { cy + 9 };
                } else if ch < 128 {
                    cx = if cx + 8 > CURSOR_LIMIT { CURSOR_LIMIT } else { cx + 8 };
                }
            }
            k = k + 1;
        }
        proof {
            assert(bs.len() == string.spec_bytes().len());
        }
    }
}

} // verus!
