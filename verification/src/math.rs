//! Fixed-point scalars and small vectors for world geometry.
//!
//! World coordinates are `i64` values carrying [`FP_SHIFT`] fractional bits,
//! so one world unit is [`FP_ONE`].  Every coordinate the library works with
//! is kept inside `[-COORD_MAX, COORD_MAX]`; with that bound, the dot
//! products and squared distances of the visibility pipeline fit in `i128`
//! without overflow.

use vstd::prelude::*;

verus! {

/// Number of fractional bits in a fixed-point world coordinate.
pub const FP_SHIFT: u32 = 16;

/// The fixed-point representation of one world unit: `1 << FP_SHIFT`.
pub const FP_ONE: i64 = 65536;

/// Largest magnitude a fixed-point world coordinate may take (2^47).
pub const COORD_MAX: i64 = 0x8000_0000_0000;

/// A point or direction in world space, componentwise fixed point.
#[derive(Clone, Copy, Debug, PartialEq, Eq, Structural)]
pub struct Vec3 {
    pub x: i64,
    pub y: i64,
    pub z: i64,
}

/// A fixed-point scalar lies in the coordinate range.
pub open spec fn coord_in_range(v: i64) -> bool {
    -COORD_MAX <= v <= COORD_MAX
}

impl Vec3 {
    /// Every component lies in the coordinate range.
    pub open spec fn bounded(self) -> bool {
        coord_in_range(self.x) && coord_in_range(self.y) && coord_in_range(self.z)
    }

    pub fn new(x: i64, y: i64, z: i64) -> (r: Vec3)
        ensures
            r == (Vec3 { x, y, z }),
    {
        Vec3 { x, y, z }
    }

    /// Squared Euclidean distance to `other`, as a mathematical integer.
    pub open spec fn spec_distance_squared(self, other: Vec3) -> int {
        (self.x - other.x) * (self.x - other.x) + (self.y - other.y) * (self.y - other.y) + (
        self.z - other.z) * (self.z - other.z)
    }

    /// Squared distance between two bounded points; exact, in `i128`.
    pub fn distance_squared(&self, other: &Vec3) -> (r: i128)
        requires
            self.bounded(),
            other.bounded(),
        ensures
            r == self.spec_distance_squared(*other),
    {
        let dx: i128 = self.x as i128 - other.x as i128;
        let dy: i128 = self.y as i128 - other.y as i128;
        let dz: i128 = self.z as i128 - other.z as i128;
        proof {
            lemma_square_bound(dx as int);
            lemma_square_bound(dy as int);
            lemma_square_bound(dz as int);
        }
        dx * dx + dy * dy + dz * dz
    }
}

/// Clamp `v + d` to the coordinate range, computing the sum without overflow.
///
/// All camera motion goes through this: the world the library models is a
/// bounded box, and motion saturates at its edge rather than wrapping.
pub fn clamped_add(v: i64, d: i64) -> (r: i64)
    ensures
        r == clamp_coord(v + d),
{
    let s: i128 = v as i128 + d as i128;
    if s < -COORD_MAX as i128 {
        -COORD_MAX
    } else if s > COORD_MAX as i128 {
        COORD_MAX
    } else {
        s as i64
    }
}

/// Division truncating toward zero, as Rust's integer division does.
pub open spec fn spec_div_toward_zero(p: int, q: int) -> int {
    if p >= 0 {
        p / q
    } else {
        -((-p) / q)
    }
}

/// The fixed-point product, as a mathematical function: the full product
/// scaled back down by one fixed-point unit (truncating toward zero) and
/// clamped to the coordinate range.
pub open spec fn fp_mul_spec(a: int, b: int) -> int {
    clamp_coord(spec_div_toward_zero(a * b, FP_ONE as int))
}

/// Fixed-point multiply: scale the full product back down and clamp it to
/// the coordinate range.  Total: any two factors give a bounded result.
pub fn fp_mul(a: i64, b: i64) -> (r: i64)
    ensures
        r == fp_mul_spec(a as int, b as int),
{
    let neg: bool = (a < 0) != (b < 0);
    let ma: u128 = if a >= 0 {
        a as u128
    } else {
        (-(a as i128)) as u128
    };
    let mb: u128 = if b >= 0 {
        b as u128
    } else {
        (-(b as i128)) as u128
    };
    proof {
        lemma_mul_bound(a as int, b as int, 0x8000_0000_0000_0000, 0x8000_0000_0000_0000);
        lemma_abs_mul(a as int, b as int, ma as int, mb as int);
    }
    let p: u128 = ma * mb;
    let q: u128 = p / (FP_ONE as u128);
    let clamped: u128 = if q > COORD_MAX as u128 {
        COORD_MAX as u128
    } else {
        q
    };
    proof {
        lemma_div_toward_zero(a as int * b as int, ma as int * mb as int, FP_ONE as int);
        let p = a as int * b as int;
        let sdt = spec_div_toward_zero(p, FP_ONE as int);
        assert(((a < 0) != (b < 0) ==> p <= 0) && (!((a < 0) != (b < 0)) ==> p >= 0))
            by (nonlinear_arith)
            requires
                p == a as int * b as int,
        ;
        if neg {
            assert(sdt == -(q as int));
        } else {
            assert(sdt == q as int);
        }
    }
    if neg {
        -(clamped as i64)
    } else {
        clamped as i64
    }
}

/// The product of the magnitudes is the magnitude of the product.
proof fn lemma_abs_mul(a: int, b: int, ma: int, mb: int)
    by (nonlinear_arith)
    requires
        ma == if a >= 0 {
            a
        } else {
            -a
        },
        mb == if b >= 0 {
            b
        } else {
            -b
        },
    ensures
        ma * mb == if a * b >= 0 {
            a * b
        } else {
            -(a * b)
        },
        ma >= 0,
        mb >= 0,
{
}

/// Dividing the magnitude and reapplying the sign is division truncating
/// toward zero.
proof fn lemma_div_toward_zero(p: int, m: int, q: int)
    by (nonlinear_arith)
    requires
        q > 0,
        m == if p >= 0 {
            p
        } else {
            -p
        },
    ensures
        m / q == if p >= 0 {
            spec_div_toward_zero(p, q)
        } else {
            -spec_div_toward_zero(p, q)
        },
        m / q >= 0,
{
}

/// A product of two bounded factors is bounded by the product of the bounds.
pub proof fn lemma_mul_bound(a: int, b: int, cap_a: int, cap_b: int)
    by (nonlinear_arith)
    requires
        -cap_a <= a <= cap_a,
        -cap_b <= b <= cap_b,
        0 <= cap_a,
        0 <= cap_b,
    ensures
        -(cap_a * cap_b) <= a * b <= cap_a * cap_b,
{
}

/// Multiplying a lower-bounded value by a coefficient of known sign bounds
/// the product from below: `c * t` is smallest at `hi` when `c` is negative
/// and at `lo` otherwise.
pub proof fn lemma_linear_min(c: int, t: int, lo: int, hi: int)
    by (nonlinear_arith)
    requires
        lo <= t <= hi,
    ensures
        c * t >= c * (if c < 0 {
            hi
        } else {
            lo
        }),
        c * t <= c * (if c < 0 {
            lo
        } else {
            hi
        }),
{
}

/// The square of a difference of two in-range coordinates fits comfortably
/// below a quarter of `i128::MAX`.
pub proof fn lemma_square_bound(d: int)
    by (nonlinear_arith)
    requires
        -2 * COORD_MAX <= d <= 2 * COORD_MAX,
    ensures
        0 <= d * d <= 4 * (COORD_MAX as int) * (COORD_MAX as int),
{
}

/// Clamp `v - d` to the coordinate range, computing the difference
/// without overflow.
pub fn clamped_sub(v: i64, d: i64) -> (r: i64)
    ensures
        r == clamp_coord(v - d),
{
    let s: i128 = v as i128 - d as i128;
    if s < -COORD_MAX as i128 {
        -COORD_MAX
    } else if s > COORD_MAX as i128 {
        COORD_MAX
    } else {
        s as i64
    }
}

/// The coordinate range clamp, as a mathematical function.
pub open spec fn clamp_coord(s: int) -> int {
    if s < -COORD_MAX {
        -COORD_MAX as int
    } else if s > COORD_MAX {
        COORD_MAX as int
    } else {
        s
    }
}

/// A 4x4 view-projection matrix in column-major naming: `xy` is the `y`
/// component of the `x` axis column, `wz` the `z` component of the
/// translation column, and so on.  Entries are fixed point.
#[derive(Clone, Copy, Debug, PartialEq, Eq, Structural)]
pub struct Mat4 {
    pub xx: i64,
    pub xy: i64,
    pub xz: i64,
    pub xw: i64,
    pub yx: i64,
    pub yy: i64,
    pub yz: i64,
    pub yw: i64,
    pub zx: i64,
    pub zy: i64,
    pub zz: i64,
    pub zw: i64,
    pub wx: i64,
    pub wy: i64,
    pub wz: i64,
    pub ww: i64,
}

impl Mat4 {
    /// Every entry lies in the coordinate range.
    pub open spec fn bounded(self) -> bool {
        &&& coord_in_range(self.xx) && coord_in_range(self.xy) && coord_in_range(self.xz)
            && coord_in_range(self.xw)
        &&& coord_in_range(self.yx) && coord_in_range(self.yy) && coord_in_range(self.yz)
            && coord_in_range(self.yw)
        &&& coord_in_range(self.zx) && coord_in_range(self.zy) && coord_in_range(self.zz)
            && coord_in_range(self.zw)
        &&& coord_in_range(self.wx) && coord_in_range(self.wy) && coord_in_range(self.wz)
            && coord_in_range(self.ww)
    }

    /// The identity transform: `FP_ONE` on the diagonal, zero elsewhere.
    pub open spec fn spec_identity() -> Mat4 {
        Mat4 {
            xx: FP_ONE,
            xy: 0,
            xz: 0,
            xw: 0,
            yx: 0,
            yy: FP_ONE,
            yz: 0,
            yw: 0,
            zx: 0,
            zy: 0,
            zz: FP_ONE,
            zw: 0,
            wx: 0,
            wy: 0,
            wz: 0,
            ww: FP_ONE,
        }
    }

    pub fn identity() -> (r: Mat4)
        ensures
            r == Mat4::spec_identity(),
    {
        Mat4 {
            xx: FP_ONE,
            xy: 0,
            xz: 0,
            xw: 0,
            yx: 0,
            yy: FP_ONE,
            yz: 0,
            yw: 0,
            zx: 0,
            zy: 0,
            zz: FP_ONE,
            zw: 0,
            wx: 0,
            wy: 0,
            wz: 0,
            ww: FP_ONE,
        }
    }
}

} // verus!
