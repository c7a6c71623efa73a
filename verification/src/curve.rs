//! Point doubling in Jacobian coordinates over the integers, as a check
//! on the formulas by hand.
//!
//! On a curve `y² = x³ + b` the double of `(x, y, z)` is
//! `(f − 2d, e(d − x₃) − 8c, 2yz)` with `a = x²`, `b = y²`, `c = b²`,
//! `d = 2((x + b)² − a − c)`, `e = 3a` and `f = e²`.

use vstd::prelude::*;

verus! {

/// The largest coordinate, in absolute value, that [`double`] takes.
pub const MAX_COORDINATE: i64 = 500;

/// The first coordinate of the double: `9x⁴ − 8xy²`.
pub open spec fn doubled_x(x: int, y: int) -> int {
    9 * (x * x * x * x) - 8 * (x * (y * y))
}

/// The second coordinate of the double: `3x²(4xy² − x₃) − 8y⁴`.
pub open spec fn doubled_y(x: int, y: int) -> int {
    3 * (x * x) * (4 * (x * (y * y)) - doubled_x(x, y)) - 8 * (y * y * y * y)
}

/// The third coordinate of the double: `2yz`.
pub open spec fn doubled_z(y: int, z: int) -> int {
    2 * (y * z)
}

/// What [`double`] returns: the first coordinate of the double scaled by
/// `2y`, then its second and third coordinate.
pub open spec fn double_spec(x: int, y: int, z: int) -> (int, int, int) {
    (doubled_x(x, y) * 2 * y, doubled_y(x, y), doubled_z(y, z))
}

/// The bounds of every product that [`double`] forms, and what the
/// intermediate values come to.
proof fn lemma_double_bounds(x: int, y: int, z: int)
    requires
        -500 <= x <= 500,
        -500 <= y <= 500,
        -500 <= z <= 500,
    ensures
        0 <= x * x <= 250_000,
        0 <= y * y <= 250_000,
        0 <= (y * y) * (y * y) <= 62_500_000_000,
        (y * y) * (y * y) == y * y * y * y,
        0 <= (x + y * y) * (x + y * y) <= 62_750_250_000,
        (x + y * y) * (x + y * y) - x * x - (y * y) * (y * y) == 2 * (x * (y * y)),
        -125_000_000 <= x * (y * y) <= 125_000_000,
        (3 * (x * x)) * (3 * (x * x)) == 9 * (x * x * x * x),
        0 <= x * x * x * x <= 62_500_000_000,
        -563_500_000_000 <= doubled_x(x, y) <= 563_500_000_000,
        -1_127_000_000_000 <= doubled_x(x, y) * 2 <= 1_127_000_000_000,
        -563_500_000_000_000 <= doubled_x(x, y) * 2 * y <= 563_500_000_000_000,
        -423_000_000_000_000_000 <= (3 * (x * x)) * (4 * (x * (y * y)) - doubled_x(x, y))
            <= 423_000_000_000_000_000,
        (3 * (x * x)) * (4 * (x * (y * y)) - doubled_x(x, y)) == 3 * (x * x) * (4 * (x * (y * y))
            - doubled_x(x, y)),
        -250_000 <= y * z <= 250_000,
{
    assert(0 <= x * x <= 250_000) by (nonlinear_arith)
        requires
            -500 <= x <= 500,
    ;
    assert(0 <= y * y <= 250_000) by (nonlinear_arith)
        requires
            -500 <= y <= 500,
    ;
    let xx = x * x;
    let yy = y * y;
    assert(0 <= yy * yy <= 62_500_000_000) by (nonlinear_arith)
        requires
            0 <= yy <= 250_000,
    ;
    assert(0 <= xx * xx <= 62_500_000_000) by (nonlinear_arith)
        requires
            0 <= xx <= 250_000,
    ;
    assert(yy * yy == y * y * y * y) by (nonlinear_arith)
        requires
            yy == y * y,
    ;
    assert(xx * xx == x * x * x * x) by (nonlinear_arith)
        requires
            xx == x * x,
    ;
    assert(-125_000_000 <= x * yy <= 125_000_000) by (nonlinear_arith)
        requires
            -500 <= x <= 500,
            0 <= yy <= 250_000,
    ;
    assert((x + yy) * (x + yy) - xx - yy * yy == 2 * (x * yy)) by (nonlinear_arith)
        requires
            xx == x * x,
    ;
    assert(0 <= (x + yy) * (x + yy) <= 62_750_250_000) by (nonlinear_arith)
        requires
            -500 <= x + yy <= 250_500,
    ;
    assert((3 * xx) * (3 * xx) == 9 * (xx * xx)) by (nonlinear_arith);
    let x3 = doubled_x(x, y);
    assert(-1_000_000_000 <= 8 * (x * yy) <= 1_000_000_000);
    assert(-563_500_000_000 <= x3 <= 563_500_000_000);
    assert(-563_500_000_000_000 <= (x3 * 2) * y <= 563_500_000_000_000) by (nonlinear_arith)
        requires
            -1_127_000_000_000 <= x3 * 2 <= 1_127_000_000_000,
            -500 <= y <= 500,
    ;
    let e = 3 * xx;
    let g = 4 * (x * yy) - x3;
    assert(-564_000_000_000 <= g <= 564_000_000_000);
    assert(-423_000_000_000_000_000 <= e * g <= 423_000_000_000_000_000) by (nonlinear_arith)
        requires
            0 <= e <= 750_000,
            -564_000_000_000 <= g <= 564_000_000_000,
    ;
    assert(e * g == 3 * xx * g) by (nonlinear_arith)
        requires
            e == 3 * xx,
    ;
    assert(-250_000 <= y * z <= 250_000) by (nonlinear_arith)
        requires
            -500 <= y <= 500,
            -500 <= z <= 500,
    ;
}

/// Doubles a point step by step, as one does by hand, and returns the first
/// coordinate scaled by `2y` together with the second and the third.
pub fn double(x: i64, y: i64, z: i64) -> (r: (i64, i64, i64))
    requires
        -MAX_COORDINATE <= x <= MAX_COORDINATE,
        -MAX_COORDINATE <= y <= MAX_COORDINATE,
        -MAX_COORDINATE <= z <= MAX_COORDINATE,
    ensures
        (r.0 as int, r.1 as int, r.2 as int) == double_spec(x as int, y as int, z as int),
{
    proof {
        lemma_double_bounds(x as int, y as int, z as int);
    }
    let a: i64 = x * x;
    let b: i64 = y * y;
    let c: i64 = b * b;
    let mut d: i64 = (x + b) * (x + b) - a - c;
    d = d + d;
    let e: i64 = a + a + a;
    let f: i64 = e * e;
    let x3: i64 = f - (d + d);
    let mut eight_c: i64 = c + c;
    eight_c = eight_c + eight_c;
    eight_c = eight_c + eight_c;
    let y1z1: i64 = y * z;
    let x1: i64 = x3 * 2 * y;
    let y1: i64 = e * (d - x3) - eight_c;
    let z1: i64 = y1z1 + y1z1;
    (x1, y1, z1)
}

} // verus!
