use vstd::prelude::*;

verus! {

/// Grid units in one world unit.
pub const UNITS_PER_WORLD_UNIT: i32 = 1000;

/// A point, or an offset, on the fixed-point world grid.
#[derive(Clone, Copy, Debug, PartialEq, Eq, Structural)]
pub struct Pos {
    pub x: i32,
    pub y: i32,
}

/// Squared Euclidean distance between two grid points.
pub open spec fn dist_sq(a: Pos, b: Pos) -> int {
    (a.x - b.x) * (a.x - b.x) + (a.y - b.y) * (a.y - b.y)
}

/// `v` clamped into `[lo, hi]`.
pub open spec fn clamp_int(v: int, lo: int, hi: int) -> int {
    if v < lo {
        lo
    } else if v > hi {
        hi
    } else {
        v
    }
}

/// The point lies in the closed rectangle `[0, w] x [0, h]`.
pub open spec fn within(p: Pos, w: int, h: int) -> bool {
    0 <= p.x <= w && 0 <= p.y <= h
}

/// `p + offset`, each axis clamped into `[0, w]` and `[0, h]`.
pub open spec fn clamped_shift(p: Pos, offset: Pos, w: int, h: int) -> Pos {
    Pos {
        x: clamp_int(p.x + offset.x, 0, w) as i32,
        y: clamp_int(p.y + offset.y, 0, h) as i32,
    }
}

proof fn lemma_square_bound(d: int)
    requires
        -0x1_0000_0000 <= d <= 0x1_0000_0000,
    ensures
        0 <= d * d <= 0x1_0000_0000_0000_0000,
{
    assert(0 <= d * d <= 0x1_0000_0000_0000_0000) by (nonlinear_arith)
        requires
            -0x1_0000_0000 <= d <= 0x1_0000_0000,
    ;
}

impl Pos {
    pub fn new(x: i32, y: i32) -> (r: Pos)
        ensures
            r == (Pos { x, y }),
    {
        Pos { x, y }
    }

    /// Squared Euclidean distance to `other`; exact for every pair of points.
    pub fn distance_squared(&self, other: &Pos) -> (r: i128)
        ensures
            r == dist_sq(*self, *other),
            r >= 0,
    {
        let dx: i128 = self.x as i128 - other.x as i128;
        let dy: i128 = self.y as i128 - other.y as i128;
        proof {
            lemma_square_bound(dx as int);
            lemma_square_bound(dy as int);
        }
        dx * dx + dy * dy
    }

    /// `self + offset`, clamped axis by axis into `[0, w] x [0, h]`.
    pub fn shifted_within(&self, offset: &Pos, w: i32, h: i32) -> (r: Pos)
        requires
            w >= 0,
            h >= 0,
        ensures
            r == clamped_shift(*self, *offset, w as int, h as int),
            within(r, w as int, h as int),
    {
        let x: i64 = clamp_axis(self.x as i64 + offset.x as i64, w as i64);
        let y: i64 = clamp_axis(self.y as i64 + offset.y as i64, h as i64);
        Pos { x: x as i32, y: y as i32 }
    }
}

fn clamp_axis(v: i64, hi: i64) -> (r: i64)
    requires
        0 <= hi,
    ensures
        r == clamp_int(v as int, 0, hi as int),
{
    if v < 0 {
        0
    } else if v > hi {
        hi
    } else {
        v
    }
}

} // verus!
