//! The edge-cost model. A traversal step is priced as its physical length
//! times a gradient multiplier, truncated to a whole number of distance
//! units. The multiplier is the linear-clamp shape: `clamp(20 * gradient,
//! 1, 20)`, so flat ground costs exactly the distance and steep ground
//! saturates instead of diverging. Gradients are held in thousandths
//! (rise over run), multipliers in thousandths as well.

use crate::math::isqrt64;
use crate::math::lemma_sqrt_floor_bounds;
use crate::math::sqrt_floor;
use vstd::prelude::*;

verus! {

/// The gradient multiplier in thousandths: `clamp(20 * g, 1000, 20000)`
/// for a gradient of `g` thousandths. Monotone, 1000 (that is, one) at
/// zero gradient, and saturating at twenty times the distance.
pub open spec fn multiplier_milli(g: int) -> int {
    if 20 * g < 1000 {
        1000
    } else if 20 * g > 20000 {
        20000
    } else {
        20 * g
    }
}

/// The truncated physical length of a displacement of (`dx`, `dy`) cells:
/// `floor(10 * sqrt(dx^2 + dy^2))` distance units, ten units per cell side.
pub open spec fn distance_spec(dx: int, dy: int) -> int {
    sqrt_floor(100 * (dx * dx + dy * dy))
}

/// The gradient of a step in thousandths, truncated toward zero: the
/// elevation change `dz` over the step's physical length, which is 10
/// units for an axis-aligned step and `10 * sqrt(2)` for a diagonal one.
pub open spec fn gradient_milli_spec(dz: int, diag: bool) -> int {
    if !diag {
        100 * dz
    } else if dz >= 0 {
        sqrt_floor(5000 * dz * dz)
    } else {
        -sqrt_floor(5000 * dz * dz)
    }
}

/// The cost of a step of displacement (`dx`, `dy`) cells at gradient `g`
/// thousandths: the physical length times the multiplier, truncated, which
/// in exact integers is `floor(sqrt((dx^2 + dy^2) * m^2) / 100)` for the
/// multiplier `m` in thousandths.
pub open spec fn cost_spec(dx: int, dy: int, g: int) -> int {
    sqrt_floor((dx * dx + dy * dy) * (multiplier_milli(g) * multiplier_milli(g))) / 100
}

/// The linear-clamp gradient multiplier, in thousandths.
pub fn linear_multiplier(gradient_milli: i64) -> (m: i64)
    ensures
        m == multiplier_milli(gradient_milli as int),
        1000 <= m <= 20000,
{
    if gradient_milli >= 1000 {
        20000
    } else if gradient_milli <= 50 {
        1000
    } else {
        20 * gradient_milli
    }
}

/// The gradient of a step in thousandths, truncated toward zero.
pub fn edge_gradient_milli(dz: i64, diag: bool) -> (g: i64)
    requires
        -2000000 <= dz <= 2000000,
    ensures
        g == gradient_milli_spec(dz as int, diag),
{
    if !diag {
        100 * dz
    } else {
        proof {
            assert(0 <= 5000 * (dz as int) * (dz as int) <= 20000000000000000)
                by (nonlinear_arith)
                requires
                    -2000000 <= (dz as int) <= 2000000,
            {
            }
        }
        let s: u64 = isqrt64((5000 * dz * dz) as u64);
        proof {
            let n = 5000 * (dz as int) * (dz as int);
            lemma_sqrt_floor_bounds(n);
            assert(sqrt_floor(n) <= 150000000) by (nonlinear_arith)
                requires
                    sqrt_floor(n) >= 0,
                    sqrt_floor(n) * sqrt_floor(n) <= n,
                    n <= 20000000000000000,
            {
            }
        }
        if dz >= 0 {
            s as i64
        } else {
            -(s as i64)
        }
    }
}

/// The truncated physical length of the displacement between two cells.
pub fn distance(a: (usize, usize), b: (usize, usize)) -> (d: u64)
    requires
        a.0 <= 30000,
        a.1 <= 30000,
        b.0 <= 30000,
        b.1 <= 30000,
    ensures
        d == distance_spec(
            if b.0 >= a.0 {
                b.0 - a.0
            } else {
                a.0 - b.0
            },
            if b.1 >= a.1 {
                b.1 - a.1
            } else {
                a.1 - b.1
            },
        ),
{
    let dx: u64 = if b.0 >= a.0 {
        (b.0 - a.0) as u64
    } else {
        (a.0 - b.0) as u64
    };
    let dy: u64 = if b.1 >= a.1 {
        (b.1 - a.1) as u64
    } else {
        (a.1 - b.1) as u64
    };
    proof {
        assert((dx as int) * (dx as int) + (dy as int) * (dy as int) <= 1800000000)
            by (nonlinear_arith)
            requires
                0 <= (dx as int) <= 30000,
                0 <= (dy as int) <= 30000,
        {
        }
    }
    isqrt64(100 * (dx * dx + dy * dy))
}

/// The cost of a step of displacement (`dx`, `dy`) cells at gradient
/// `gradient_milli` thousandths.
pub fn cost_fn(dx: u64, dy: u64, gradient_milli: i64) -> (c: i64)
    requires
        dx <= 30000,
        dy <= 30000,
    ensures
        c == cost_spec(dx as int, dy as int, gradient_milli as int),
        c >= 0,
{
    let m: i64 = linear_multiplier(gradient_milli);
    proof {
        assert((dx as int) * (dx as int) + (dy as int) * (dy as int) <= 1800000000 && ((dx as int)
            * (dx as int) + (dy as int) * (dy as int)) * ((m as int) * (m as int))
            <= 720000000000000000 && (m as int) * (m as int) <= 400000000) by (nonlinear_arith)
            requires
                0 <= (dx as int) <= 30000,
                0 <= (dy as int) <= 30000,
                1000 <= (m as int) <= 20000,
        {
        }
    }
    let arg: u64 = (dx * dx + dy * dy) * ((m * m) as u64);
    let s: u64 = isqrt64(arg);
    proof {
        lemma_sqrt_floor_bounds(arg as int);
        assert(sqrt_floor(arg as int) * sqrt_floor(arg as int) <= arg as int
            <= 720000000000000000);
    }
    (s / 100) as i64
}

/// A step cost is never negative, and never less than the step's truncated
/// physical length: the multiplier is at least one.
pub proof fn lemma_cost_at_least_distance(dx: int, dy: int, g: int)
    requires
        0 <= dx <= 30000,
        0 <= dy <= 30000,
    ensures
        cost_spec(dx, dy, g) >= distance_spec(dx, dy),
        cost_spec(dx, dy, g) >= 0,
{
    let x = dx * dx + dy * dy;
    let m = multiplier_milli(g);
    assert(dx * dx + dy * dy >= 0 && (dx * dx + dy * dy) * (1000 * 1000) <= (dx * dx + dy * dy) * (
    m * m)) by (nonlinear_arith)
        requires
            0 <= dx,
            0 <= dy,
            1000 <= m,
    {
    }
    crate::math::lemma_sqrt_floor_monotone(x * (1000 * 1000), x * (m * m));
    lemma_cost_zero_gradient(dx, dy);
    lemma_sqrt_floor_bounds(x * (m * m));
}

/// A step cost fits comfortably in a machine word: the multiplier
/// saturates, so a cost never exceeds twenty times the longest diagonal.
pub proof fn lemma_cost_spec_upper(dx: int, dy: int, g: int)
    requires
        0 <= dx <= 30000,
        0 <= dy <= 30000,
    ensures
        0 <= cost_spec(dx, dy, g) <= 8500000,
{
    let x = dx * dx + dy * dy;
    let m = multiplier_milli(g);
    assert(0 <= x * (m * m) <= 720000000000000000) by (nonlinear_arith)
        requires
            0 <= dx <= 30000,
            0 <= dy <= 30000,
            1000 <= m <= 20000,
            x == dx * dx + dy * dy,
    {
    }
    let s = sqrt_floor(x * (m * m));
    lemma_sqrt_floor_bounds(x * (m * m));
    assert(s <= 850000000) by (nonlinear_arith)
        requires
            s >= 0,
            s * s <= 720000000000000000,
    {
    }
}

/// At zero gradient the multiplier is one, and the step cost equals the
/// step's truncated physical length.
pub proof fn lemma_cost_zero_gradient(dx: int, dy: int)
    requires
        0 <= dx <= 30000,
        0 <= dy <= 30000,
    ensures
        cost_spec(dx, dy, 0) == distance_spec(dx, dy),
{
    let x = dx * dx + dy * dy;
    assert(0 <= dx * dx + dy * dy <= 1800000000) by (nonlinear_arith)
        requires
            0 <= dx <= 30000,
            0 <= dy <= 30000,
    {
    }
    let r = sqrt_floor(100 * x);
    let s = sqrt_floor(x * (1000 * 1000));
    lemma_sqrt_floor_bounds(100 * x);
    lemma_sqrt_floor_bounds(x * (1000 * 1000));
    assert(s >= 100 * r) by (nonlinear_arith)
        requires
            r * r <= 100 * x,
            x * (1000 * 1000) < (s + 1) * (s + 1),
            r >= 0,
            s >= 0,
    {
    }
    assert(s < 100 * r + 100) by (nonlinear_arith)
        requires
            100 * x < (r + 1) * (r + 1),
            s * s <= x * (1000 * 1000),
            r >= 0,
            s >= 0,
    {
    }
    assert(s / 100 == r);
}

} // verus!
