//! Colour normalisation and rectangle ordering.
use vstd::prelude::*;

verus! {

/// The colour index that an arbitrary integer stands for: its residue modulo 256.
pub open spec fn wrap_spec(n: int) -> int {
    n % 256
}

/// Reduces an arbitrary colour value into a palette index in `0..=255`.
pub fn wrap_byte(n: i32) -> (r: u8)
    ensures
        r as int == wrap_spec(n as int),
{
    let mut m: i32 = n;
    while m < 0
        invariant
            m as int % 256 == n as int % 256,
        decreases if m < 0 { -(m as int) } else { 0 },
    {
        proof {
            lemma_mod_shift(m as int, 1);
        }
        m = m + 256;
    }
    (m % 256) as u8
}

proof fn lemma_mod_shift(a: int, k: int)
    ensures
        (a + 256 * k) % 256 == a % 256,
{
    vstd::arithmetic::div_mod::lemma_mod_multiples_vanish(k, a, 256);
}

/// Wrapping a colour always yields a palette index, and adding any multiple of
/// 256 to the colour does not change the index it wraps to.
pub proof fn lemma_wrap_periodic(c: int, k: int)
    ensures
        0 <= wrap_spec(c) <= 255,
        wrap_spec(c) == wrap_spec(c + 256 * k),
{
    lemma_mod_shift(c, k);
}

/// Orders each coordinate pair independently so that `x0 <= x1` and `y0 <= y1`.
pub fn rect_swap(x0: i64, y0: i64, x1: i64, y1: i64) -> (r: (i64, i64, i64, i64))
    ensures
        r.0 == if x0 <= x1 { x0 } else { x1 },
        r.2 == if x0 <= x1 { x1 } else { x0 },
        r.1 == if y0 <= y1 { y0 } else { y1 },
        r.3 == if y0 <= y1 { y1 } else { y0 },
{
    let (a, c) = if x0 > x1 { (x1, x0) } else { (x0, x1) };
    let (b, d) = if y0 > y1 { (y1, y0) } else { (y0, y1) };
    (a, b, c, d)
}

} // verus!
