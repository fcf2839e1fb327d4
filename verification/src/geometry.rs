use vstd::prelude::*;

use crate::rng::DRAW_MAX;

verus! {

/// Where a drone appears relative to the vehicle.
///
/// `Fixed` is a position in whole metres. `Ring` is a point on the ring of
/// radius [`RING_RADIUS_M`] around the vehicle, at angle
/// `2π · angle_draw / DRAW_MAX` and altitude
/// `RING_BASE_ALTITUDE_M + RING_ALTITUDE_SPAN_M · altitude_draw / DRAW_MAX`.
#[derive(Clone, Copy, Debug, PartialEq, Eq, Structural)]
pub enum SpawnSite {
    Fixed { x_m: i64, y_m: i64, z_m: i64 },
    Ring { angle_draw: u32, altitude_draw: u32 },
}

/// Horizontal distance, in metres, at which a replacement attack drone appears.
pub const RING_RADIUS_M: u32 = 2800;

/// Lowest altitude, in metres, of a replacement attack drone.
pub const RING_BASE_ALTITUDE_M: u32 = 150;

/// Spread, in metres, of the altitude of a replacement attack drone above the base.
pub const RING_ALTITUDE_SPAN_M: u32 = 100;

/// The largest whole number whose square is at most `n`.
pub open spec fn floor_sqrt(n: nat) -> nat
    decreases n,
{
    if n == 0 {
        0
    } else {
        let r = floor_sqrt((n - 1) as nat);
        if (r + 1) * (r + 1) <= n {
            r + 1
        } else {
            r
        }
    }
}

proof fn lemma_square_monotone(a: nat, b: nat)
    requires
        a <= b,
    ensures
        a * a <= b * b,
{
    assert(a * a <= b * b) by (nonlinear_arith)
        requires
            a <= b,
    ;
}

/// `floor_sqrt(n)` is the whole square root of `n`.
pub proof fn lemma_floor_sqrt(n: nat)
    ensures
        floor_sqrt(n) * floor_sqrt(n) <= n,
        n < (floor_sqrt(n) + 1) * (floor_sqrt(n) + 1),
    decreases n,
{
    if n == 0 {
        assert(floor_sqrt(0) == 0);
        assert((0nat + 1) * (0nat + 1) == 1) by (nonlinear_arith);
    } else {
        lemma_floor_sqrt((n - 1) as nat);
        let r = floor_sqrt((n - 1) as nat);
        assert(r * r <= n - 1);
        assert(n - 1 < (r + 1) * (r + 1));
        if (r + 1) * (r + 1) <= n {
            assert(floor_sqrt(n) == r + 1);
            assert((r + 1) * (r + 1) < (r + 2) * (r + 2)) by (nonlinear_arith);
            assert(n < (r + 2) * (r + 2));
            assert((r + 1) + 1 == r + 2);
            assert(n < (floor_sqrt(n) + 1) * (floor_sqrt(n) + 1));
        } else {
            assert(floor_sqrt(n) == r);
        }
    }
}

/// The whole square root is the only whole number `r` with `r² <= n < (r+1)²`.
pub proof fn lemma_floor_sqrt_unique(n: nat, r: nat)
    requires
        r * r <= n,
        n < (r + 1) * (r + 1),
    ensures
        r == floor_sqrt(n),
{
    lemma_floor_sqrt(n);
    let f = floor_sqrt(n);
    if r < f {
        lemma_square_monotone(r + 1, f);
    } else if r > f {
        lemma_square_monotone(f + 1, r);
    }
}

/// The whole square root of `n`.
pub fn isqrt(n: u128) -> (r: u64)
    ensures
        r as nat == floor_sqrt(n as nat),
{
    let mut lo: u128 = 0;
    let mut hi: u128 = 0x1_0000_0000_0000_0000;
    assert(n < hi * hi) by (nonlinear_arith)
        requires
            hi == 0x1_0000_0000_0000_0000u128,
            n <= u128::MAX,
    ;
    while hi - lo > 1
        invariant
            lo < hi,
            hi <= 0x1_0000_0000_0000_0000u128,
            lo * lo <= n,
            n < hi * hi,
        decreases hi - lo,
    {
        let mid = lo + (hi - lo) / 2;
        assert(mid * mid < 0x1_0000_0000_0000_0000_0000_0000_0000_0000) by (nonlinear_arith)
            requires
                mid < 0x1_0000_0000_0000_0000u128,
        ;
        if mid * mid <= n {
            lo = mid;
        } else {
            hi = mid;
        }
    }
    proof {
        lemma_floor_sqrt_unique(n as nat, lo as nat);
    }
    lo as u64
}

/// The whole square root rounded to the nearest whole number: up exactly
/// when `n` exceeds `r² + r` for its whole square root `r` (a half-way value
/// cannot occur for whole `n`).
pub open spec fn round_sqrt(n: nat) -> nat {
    let r = floor_sqrt(n);
    if n - r * r > r {
        r + 1
    } else {
        r
    }
}

/// Square of the distance from the vehicle to a whole-metre position.
pub open spec fn fixed_square(x: i64, y: i64, z: i64) -> nat {
    (x * x + y * y + z * z) as nat
}

/// `DRAW_MAX²` times the square of the distance to a point on the ring at
/// the altitude drawn by `altitude_draw`.
pub open spec fn ring_scaled_square(altitude_draw: u32) -> nat {
    let m = DRAW_MAX as nat;
    let alt_scaled = RING_BASE_ALTITUDE_M * m + RING_ALTITUDE_SPAN_M * (altitude_draw as nat);
    (RING_RADIUS_M * RING_RADIUS_M * m * m + alt_scaled * alt_scaled) as nat
}

/// Distance from the vehicle to a site, in whole metres (the floor).
pub open spec fn site_range(site: SpawnSite) -> nat {
    match site {
        SpawnSite::Fixed { x_m, y_m, z_m } => floor_sqrt(fixed_square(x_m, y_m, z_m)),
        SpawnSite::Ring { altitude_draw, .. } => floor_sqrt(ring_scaled_square(altitude_draw)) / (
        DRAW_MAX as nat),
    }
}

/// Distance from the vehicle to a site, rounded to the nearest metre.
pub open spec fn site_rounded(site: SpawnSite) -> nat {
    match site {
        SpawnSite::Fixed { x_m, y_m, z_m } => round_sqrt(fixed_square(x_m, y_m, z_m)),
        SpawnSite::Ring { altitude_draw, .. } => (floor_sqrt(4 * ring_scaled_square(altitude_draw))
            + DRAW_MAX as nat) / (2 * (DRAW_MAX as nat)),
    }
}

fn abs_u128(v: i64) -> (r: u128)
    ensures
        r as int * r as int == v as int * v as int,
        r <= 0x8000_0000_0000_0000u128,
{
    if v < 0 {
        let w: i128 = -(v as i128);
        assert(w as int * w as int == v as int * v as int) by (nonlinear_arith)
            requires
                w == -(v as int),
        ;
        w as u128
    } else {
        v as u128
    }
}

/// The distance from the vehicle to a site: in whole metres (the floor) and
/// rounded to the nearest metre.
pub fn site_distance(site: SpawnSite) -> (r: (u64, u128))
    ensures
        r.0 as nat == site_range(site),
        r.1 as nat == site_rounded(site),
{
    match site {
        SpawnSite::Fixed { x_m, y_m, z_m } => {
            let ax = abs_u128(x_m);
            let ay = abs_u128(y_m);
            let az = abs_u128(z_m);
            assert(ax * ax <= 0x4000_0000_0000_0000_0000_0000_0000_0000) by (nonlinear_arith)
                requires
                    ax <= 0x8000_0000_0000_0000u128,
            ;
            assert(ay * ay <= 0x4000_0000_0000_0000_0000_0000_0000_0000) by (nonlinear_arith)
                requires
                    ay <= 0x8000_0000_0000_0000u128,
            ;
            assert(az * az <= 0x4000_0000_0000_0000_0000_0000_0000_0000) by (nonlinear_arith)
                requires
                    az <= 0x8000_0000_0000_0000u128,
            ;
            let n: u128 = ax * ax + ay * ay + az * az;
            assert(n as nat == fixed_square(x_m, y_m, z_m));
            let f = isqrt(n);
            proof {
                lemma_floor_sqrt(n as nat);
            }
            let ff: u128 = (f as u128) * (f as u128);
            let rounded: u128 = if n - ff > f as u128 {
                f as u128 + 1
            } else {
                f as u128
            };
            (f, rounded)
        },
        SpawnSite::Ring { altitude_draw, .. } => {
            let m: u128 = DRAW_MAX as u128;
            let d: u128 = altitude_draw as u128;
            assert(150 * m + 100 * d <= 250 * m);
            let alt_scaled: u128 = 150 * m + 100 * d;
            assert(alt_scaled * alt_scaled <= 62500 * m * m) by (nonlinear_arith)
                requires
                    alt_scaled <= 250 * m,
            ;
            let n: u128 = 7840000 * m * m + alt_scaled * alt_scaled;
            assert(n as nat == ring_scaled_square(altitude_draw));
            let f = isqrt(n);
            let f4 = isqrt(4 * n);
            let range: u128 = (f as u128) / m;
            assert(range <= f);
            (range as u64, (f4 as u128 + m) / (2 * m))
        },
    }
}

} // verus!
