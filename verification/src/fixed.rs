use vstd::prelude::*;

verus! {

/// The fixed-point representation of 1: a coordinate `v` stands for the
/// real number `v / SCALE`, so one grid cell is `SCALE` units wide and one
/// unit is 2^-32, about 2.3e-10.
pub const SCALE: i64 = 0x1_0000_0000;

/// The largest absolute value of a coordinate: just under 32768 cells.
pub const COORD_MAX: i64 = 0x7fff_ffff_ffff;

/// A point or direction of the plane, each coordinate in fixed point.
#[derive(Clone, Copy, Debug, PartialEq, Eq, Structural)]
pub struct Vector2 {
    pub x: i64,
    pub y: i64,
}

/// `n / SCALE`, rounded to the nearest integer (halves go up).
pub open spec fn round_scaled(n: int) -> int {
    (n + 0x8000_0000) / 0x1_0000_0000
}

/// The absolute value of an integer.
pub open spec fn abs(n: int) -> int {
    if n < 0 {
        -n
    } else {
        n
    }
}

/// Whether an integer is a coordinate of the fixed-point format.
pub open spec fn representable(n: int) -> bool {
    -COORD_MAX <= n <= COORD_MAX
}

/// The product of two bounded numbers is bounded by the product of the bounds.
pub proof fn lemma_product_bound(a: int, b: int, bound_a: int, bound_b: int)
    by (nonlinear_arith)
    requires
        0 <= a <= bound_a,
        0 <= b <= bound_b,
    ensures
        0 <= a * b <= bound_a * bound_b,
{
}

/// The product of two numbers of bounded absolute value.
pub proof fn lemma_abs_product(a: int, b: int, bound_a: int, bound_b: int)
    by (nonlinear_arith)
    requires
        -bound_a <= a <= bound_a,
        -bound_b <= b <= bound_b,
    ensures
        -(bound_a * bound_b) <= a * b <= bound_a * bound_b,
{
}

/// The product of two non-negative numbers is non-negative, and positive
/// exactly when both are.
pub proof fn lemma_product_sign(a: int, b: int)
    by (nonlinear_arith)
    requires
        0 <= a,
        0 <= b,
    ensures
        0 <= a * b,
        a * b > 0 <==> a > 0 && b > 0,
{
}

/// `n / SCALE`, rounded to the nearest integer.
pub fn round_to_scale(n: i128) -> (r: i128)
    requires
        -0x4000_0000_0000_0000_0000_0000_0000_0000 <= n <= 0x4000_0000_0000_0000_0000_0000_0000_0000,
    ensures
        r == round_scaled(n as int),
{
    let m: i128 = n + 0x8000_0000;
    if m >= 0 {
        m / 0x1_0000_0000
    } else {
        -((-m + 0xffff_ffff) / 0x1_0000_0000)
    }
}

/// The product of two fixed-point numbers, as a fixed-point number.
pub fn scaled_product(a: i64, b: i64) -> (r: i128)
    ensures
        r == round_scaled(a * b),
{
    proof {
        lemma_abs_product(a as int, b as int, 0x8000_0000_0000_0000, 0x8000_0000_0000_0000);
    }
    round_to_scale((a as i128) * (b as i128))
}

impl Vector2 {
    /// Whether both coordinates are coordinates of the fixed-point format.
    pub open spec fn spec_in_range(&self) -> bool {
        representable(self.x as int) && representable(self.y as int)
    }

    /// The vector with the given coordinates.
    pub fn new(x: i64, y: i64) -> (v: Vector2)
        ensures
            v == (Vector2 { x, y }),
    {
        Vector2 { x, y }
    }

    /// Whether both coordinates are coordinates of the fixed-point format.
    #[verifier::when_used_as_spec(spec_in_range)]
    pub fn in_range(&self) -> (ok: bool)
        ensures
            ok == self.in_range(),
    {
        -COORD_MAX <= self.x && self.x <= COORD_MAX && -COORD_MAX <= self.y && self.y <= COORD_MAX
    }
}

} // verus!
