//! One- and two-dimensional half-open intervals on the panel, and byte alignment.
use vstd::prelude::*;

verus! {

/// Width of the panel in pixels.
pub const WIDTH: usize = 200;

/// Height of the panel in pixels.
pub const HEIGHT: usize = 200;

pub open spec fn max_int(a: int, b: int) -> int {
    if a >= b {
        a
    } else {
        b
    }
}

pub open spec fn min_int(a: int, b: int) -> int {
    if a <= b {
        a
    } else {
        b
    }
}

/// A half-open interval `[lo, hi)` on one axis.
#[derive(Clone, Copy, Debug, PartialEq, Eq, Structural)]
pub struct Span {
    pub lo: i16,
    pub hi: i16,
}

impl Span {
    /// The common part of two spans: `None` when the clipped bounds cross.
    pub open spec fn overlap(self, other: Span) -> Option<Span> {
        let lo = max_int(self.lo as int, other.lo as int);
        let hi = min_int(self.hi as int, other.hi as int);
        if lo <= hi {
            Some(Span { lo: lo as i16, hi: hi as i16 })
        } else {
            None
        }
    }

    /// Whether the pixel coordinate `v` lies in the span.
    pub open spec fn contains(self, v: int) -> bool {
        self.lo <= v < self.hi
    }

    pub fn size(self) -> (r: i16)
        requires
            i16::MIN <= self.hi - self.lo <= i16::MAX,
        ensures
            r == self.hi - self.lo,
    {
        self.hi - self.lo
    }

    pub fn intersection(self, other: Span) -> (r: Option<Span>)
        ensures
            r == self.overlap(other),
    {
        let lo = if self.lo >= other.lo {
            self.lo
        } else {
            other.lo
        };
        let hi = if self.hi <= other.hi {
            self.hi
        } else {
            other.hi
        };
        if lo <= hi {
            Some(Span { lo, hi })
        } else {
            None
        }
    }
}

/// A rectangle made of an X span and a Y span.
#[derive(Clone, Copy, Debug, PartialEq, Eq, Structural)]
pub struct Rect {
    pub x: Span,
    pub y: Span,
}

/// The physical bounds of the panel, `[0, 200) x [0, 200)`.
pub open spec fn screen() -> Rect {
    Rect { x: Span { lo: 0, hi: 200 }, y: Span { lo: 0, hi: 200 } }
}

impl Rect {
    /// The common part of two rectangles: `None` when either axis has none.
    pub open spec fn overlap(self, other: Rect) -> Option<Rect> {
        match (self.x.overlap(other.x), self.y.overlap(other.y)) {
            (Some(x), Some(y)) => Some(Rect { x, y }),
            _ => None,
        }
    }

    /// Whether the pixel `(px, py)` lies in the rectangle.
    pub open spec fn contains(self, px: int, py: int) -> bool {
        self.x.contains(px) && self.y.contains(py)
    }

    /// The panel bounds.
    pub fn screen() -> (r: Rect)
        ensures
            r == screen(),
    {
        Rect { x: Span { lo: 0, hi: 200 }, y: Span { lo: 0, hi: 200 } }
    }

    pub fn intersection(self, other: Rect) -> (r: Option<Rect>)
        ensures
            r == self.overlap(other),
    {
        let x = match self.x.intersection(other.x) {
            Some(x) => x,
            None => return None,
        };
        let y = match self.y.intersection(other.y) {
            Some(y) => y,
            None => return None,
        };
        Some(Rect { x, y })
    }
}

/// Remainder of `n / m` as Rust computes it on signed integers: truncated toward zero,
/// so it has the sign of `n`.
pub open spec fn trunc_rem(n: int, m: int) -> int {
    if n >= 0 {
        n % m
    } else {
        -((-n) % m)
    }
}

/// `n / m` truncated toward zero, as Rust computes it on signed integers.
pub open spec fn trunc_div(n: int, m: int) -> int {
    if n >= 0 {
        n / m
    } else {
        -((-n) / m)
    }
}

/// The largest multiple of `m` at or below `n` (for `m > 0`; `%` here is Euclidean).
pub open spec fn round_down(n: int, m: int) -> int {
    n - n % m
}

/// The smallest multiple of `m` at or above `n` (for `m > 0`).
pub open spec fn round_up(n: int, m: int) -> int {
    if n % m == 0 {
        n
    } else {
        n + (m - n % m)
    }
}

/// Rust's truncated remainder, moved up by `m` when negative, is the Euclidean one.
proof fn lemma_trunc_rem_to_euclid(n: int, m: int)
    requires
        m > 0,
    ensures
        trunc_rem(n, m) < 0 ==> trunc_rem(n, m) + m == n % m,
        trunc_rem(n, m) >= 0 ==> trunc_rem(n, m) == n % m,
{
    if n < 0 {
        let k = -n;
        let a = k % m;
        let q = k / m;
        vstd::arithmetic::div_mod::lemma_fundamental_div_mod(k, m);
        assert(k == m * q + a);
        if a == 0 {
            assert(n == (-q) * m + 0) by (nonlinear_arith)
                requires
                    k == m * q + a,
                    a == 0,
                    n == -k,
            ;
            vstd::arithmetic::div_mod::lemma_fundamental_div_mod_converse(n, m, -q, 0);
        } else {
            assert(n == (-q - 1) * m + (m - a)) by (nonlinear_arith)
                requires
                    k == m * q + a,
                    n == -k,
            ;
            vstd::arithmetic::div_mod::lemma_fundamental_div_mod_converse(n, m, -q - 1, m - a);
        }
    }
}

/// Both roundings land on multiples of `m`, within one step of `n`.
proof fn lemma_rounding_lands_on_multiples(n: int, m: int)
    requires
        m > 0,
    ensures
        round_down(n, m) % m == 0,
        round_up(n, m) % m == 0,
        round_down(n, m) <= n < round_down(n, m) + m,
        round_up(n, m) - m < n <= round_up(n, m),
{
    let q = n / m;
    vstd::arithmetic::div_mod::lemma_fundamental_div_mod(n, m);
    assert(round_down(n, m) == q * m) by (nonlinear_arith)
        requires
            n == m * q + n % m,
            round_down(n, m) == n - n % m,
    ;
    vstd::arithmetic::div_mod::lemma_mod_multiples_basic(q, m);
    if n % m != 0 {
        assert(round_up(n, m) == (q + 1) * m) by (nonlinear_arith)
            requires
                n == m * q + n % m,
                round_up(n, m) == n + (m - n % m),
        ;
        vstd::arithmetic::div_mod::lemma_mod_multiples_basic(q + 1, m);
    }
}

pub fn floor_multiple(n: i16, m: i16) -> (r: i16)
    requires
        m > 0,
        round_down(n as int, m as int) >= i16::MIN,
    ensures
        r == round_down(n as int, m as int),
        r % m == 0,
        r <= n < r + m,
{
    let rem = (n as i32) % (m as i32);
    let rem = if rem < 0 {
        rem + m as i32
    } else {
        rem
    };
    proof {
        lemma_trunc_rem_to_euclid(n as int, m as int);
    }
    assert(rem == (n as int) % (m as int));
    proof {
        lemma_rounding_lands_on_multiples(n as int, m as int);
    }
    ((n as i32) - rem) as i16
}

pub fn ceil_multiple(n: i16, m: i16) -> (r: i16)
    requires
        m > 0,
        round_up(n as int, m as int) <= i16::MAX,
    ensures
        r == round_up(n as int, m as int),
        r % m == 0,
        r - m < n <= r,
{
    let rem = (n as i32) % (m as i32);
    let rem = if rem < 0 {
        rem + m as i32
    } else {
        rem
    };
    proof {
        lemma_trunc_rem_to_euclid(n as int, m as int);
    }
    assert(rem == (n as int) % (m as int));
    proof {
        lemma_rounding_lands_on_multiples(n as int, m as int);
    }
    let r = if rem > 0 {
        (n as i32) + ((m as i32) - rem)
    } else {
        n as i32
    };
    r as i16
}

/// Intersecting spans does not depend on their order, and a present intersection runs
/// exactly from the larger start to the smaller end.
pub proof fn lemma_span_intersection_commutes(a: Span, b: Span)
    ensures
        a.overlap(b) == b.overlap(a),
        a.overlap(b) matches Some(s) ==> s.lo == max_int(a.lo as int, b.lo as int) && s.hi
            == min_int(a.hi as int, b.hi as int),
{
}

/// Whether no pixel of `r` lies on the panel.
pub open spec fn lies_outside_screen(r: Rect) -> bool {
    forall|px: int, py: int| r.contains(px, py) ==> !screen().contains(px, py)
}

/// Whether clipping one axis of `r` to the panel leaves a span of length zero, such as
/// `[200, 300)` on X: that span is present yet holds no pixel.
pub open spec fn clips_to_zero_width(r: Rect) -> bool {
    ||| max_int(r.x.lo as int, 0) == min_int(r.x.hi as int, 200)
    ||| max_int(r.y.lo as int, 0) == min_int(r.y.hi as int, 200)
}

/// A rectangle has no intersection with the panel exactly when none of its pixels lies
/// on the panel, unless one axis clips to a zero-length span, which counts as present.
pub proof fn lemma_screen_intersection_absent_iff_outside(r: Rect)
    requires
        !clips_to_zero_width(r),
    ensures
        r.overlap(screen()) is None <==> lies_outside_screen(r),
{
    let xlo = max_int(r.x.lo as int, 0);
    let xhi = min_int(r.x.hi as int, 200);
    let ylo = max_int(r.y.lo as int, 0);
    let yhi = min_int(r.y.hi as int, 200);
    if r.overlap(screen()) is None {
        assert(xlo > xhi || ylo > yhi);
    } else {
        assert(xlo < xhi && ylo < yhi);
        assert(r.contains(xlo, ylo) && screen().contains(xlo, ylo));
    }
}

/// Byte alignment brackets a coordinate: rounding down never exceeds it, rounding up
/// never falls below it, and both land on a multiple of eight. Both fit in `i16` for
/// every `n` up to the largest multiple of eight that does.
pub proof fn lemma_byte_alignment_brackets(n: i16)
    requires
        n <= i16::MAX - 7,
    ensures
        round_down(n as int, 8) <= n <= round_up(n as int, 8),
        round_down(n as int, 8) % 8 == 0,
        round_up(n as int, 8) % 8 == 0,
        round_down(n as int, 8) >= i16::MIN,
        round_up(n as int, 8) <= i16::MAX,
{
    lemma_rounding_lands_on_multiples(n as int, 8);
}

} // verus!
