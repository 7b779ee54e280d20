//! Integer decisions inside the procedural noise functions.
use vstd::prelude::*;

verus! {

/// Number of octaves that `fbm` actually sums: the request clamped to `1..=4`.
pub open spec fn spec_clamp_octaves(octaves: int) -> int {
    if octaves < 1 {
        1
    } else if octaves > 4 {
        4
    } else {
        octaves
    }
}

/// Clamps a requested octave count into `1..=4`, as `fbm` does before summing.
pub fn clamp_octaves(octaves: i32) -> (r: i32)
    ensures
        r == spec_clamp_octaves(octaves as int),
        1 <= r <= 4,
        1 <= octaves <= 4 ==> r == octaves,
        octaves < 1 ==> r == 1,
        octaves > 4 ==> r == 4,
{
    let capped = if octaves < 4 { octaves } else { 4 };
    if capped > 1 { capped } else { 1 }
}


/// Octave law: a request inside `1..=4` is kept as it is, fewer than one
/// becomes one and more than four becomes four; that is, the result is
/// `min(max(octaves, 1), 4)`.
pub proof fn lemma_clamp_octaves_keeps_valid_requests(octaves: int)
    ensures
        1 <= octaves <= 4 ==> spec_clamp_octaves(octaves) == octaves,
        octaves < 1 ==> spec_clamp_octaves(octaves) == 1,
        octaves > 4 ==> spec_clamp_octaves(octaves) == 4,
        spec_clamp_octaves(octaves) == vstd::math::min(vstd::math::max(octaves, 1), 4),
{
}

/// Clamping the octave count twice is the same as clamping it once, so
/// `turbulence`'s own clamp before calling `fbm` changes nothing.
pub proof fn lemma_clamp_octaves_idempotent(octaves: int)
    ensures
        spec_clamp_octaves(spec_clamp_octaves(octaves)) == spec_clamp_octaves(octaves),
{
}

/// A coordinate axis.
#[derive(Clone, Copy, Debug, PartialEq, Eq, Structural)]
pub enum Axis {
    X,
    Y,
    Z,
}

/// The two signed axis terms whose sum is the simplex gradient dot product:
/// `(±u) + (±v)` with `u`, `v` the point's coordinates along the named axes.
#[derive(Clone, Copy, Debug, PartialEq, Eq, Structural)]
pub struct GradientTerms {
    pub u: Axis,
    pub u_negated: bool,
    pub v: Axis,
    pub v_negated: bool,
}

/// The low four bits of a lattice hash, which select the gradient.
pub open spec fn gradient_code(hash: i32) -> int {
    (hash & 15) as int
}

/// Gradient selection from the 4-bit code `h`: `u` is x below 8, else y;
/// `v` is y below 4, x for 12 and 14, else z; bit 0 negates `u`, bit 1 negates `v`.
pub open spec fn spec_gradient_terms(h: int) -> GradientTerms {
    GradientTerms {
        u: if h < 8 { Axis::X } else { Axis::Y },
        u_negated: h % 2 == 1,
        v: if h < 4 {
            Axis::Y
        } else if h == 12 || h == 14 {
            Axis::X
        } else {
            Axis::Z
        },
        v_negated: (h / 2) % 2 == 1,
    }
}

/// Chooses the gradient for a lattice corner from its hash.
pub fn gradient_terms(hash: i32) -> (g: GradientTerms)
    ensures
        0 <= gradient_code(hash) < 16,
        g == spec_gradient_terms(gradient_code(hash)),
        gradient_code(hash) < 12 ==> edge_code(gradient_direction(g)) == gradient_code(hash),
{
    let h = hash & 15;
    proof {
        assert(0 <= h < 16) by (bit_vector)
            requires
                h == hash & 15,
        ;
        assert((h & 1 == 0) == (h % 2 == 0)) by (bit_vector);
        assert((h & 2 == 0) == ((h / 2) % 2 == 0)) by (bit_vector)
            requires
                0 <= h < 16,
        ;
    }
    let u = if h < 8 { Axis::X } else { Axis::Y };
    let v = if h < 4 {
        Axis::Y
    } else if h == 12 || h == 14 {
        Axis::X
    } else {
        Axis::Z
    };
    proof {
        lemma_gradient_table(h as int);
    }
    GradientTerms { u, u_negated: h & 1 != 0, v, v_negated: h & 2 != 0 }
}

/// Every gradient adds two different axes, so it is one of the twelve
/// cube-edge directions (each component in {-1, 0, 1}, exactly two non-zero).
pub proof fn lemma_gradient_axes_distinct(hash: i32)
    ensures
        spec_gradient_terms(gradient_code(hash)).u != spec_gradient_terms(gradient_code(hash)).v,
{
    assert(0 <= hash & 15 < 16) by (bit_vector);
}

/// Signed unit contribution of one term to coordinate `on`.
pub open spec fn axis_unit(axis: Axis, negated: bool, on: Axis) -> int {
    if axis == on {
        if negated {
            -1
        } else {
            1
        }
    } else {
        0
    }
}

/// The gradient as a vector `(gx, gy, gz)`: the dot product that `grad`
/// computes is `gx * x + gy * y + gz * z`.
pub open spec fn gradient_direction(g: GradientTerms) -> (int, int, int) {
    (
        axis_unit(g.u, g.u_negated, Axis::X) + axis_unit(g.v, g.v_negated, Axis::X),
        axis_unit(g.u, g.u_negated, Axis::Y) + axis_unit(g.v, g.v_negated, Axis::Y),
        axis_unit(g.u, g.u_negated, Axis::Z) + axis_unit(g.v, g.v_negated, Axis::Z),
    )
}

/// Code of a cube-edge direction among 0..12: the edges in the xy plane
/// first, then xz, then yz; within a plane, bit 0 flips the first axis and
/// bit 1 the second.
pub open spec fn edge_code(d: (int, int, int)) -> int {
    if d.2 == 0 {
        (if d.0 < 0 { 1int } else { 0 }) + (if d.1 < 0 { 2int } else { 0 })
    } else if d.1 == 0 {
        4 + (if d.0 < 0 { 1int } else { 0 }) + (if d.2 < 0 { 2int } else { 0 })
    } else {
        8 + (if d.1 < 0 { 1int } else { 0 }) + (if d.2 < 0 { 2int } else { 0 })
    }
}

/// Gradient table law: the first twelve codes give the twelve edge
/// directions of the cube, each exactly once (code `h` is the edge with
/// `edge_code` `h`); codes 12 to 15 repeat the edges of codes 0, 9, 1 and 11.
/// Every gradient has exactly two non-zero components, each 1 or -1.
pub proof fn lemma_gradient_table(h: int)
    requires
        0 <= h < 16,
    ensures
        h < 12 ==> edge_code(gradient_direction(spec_gradient_terms(h))) == h,
        h == 12 ==> gradient_direction(spec_gradient_terms(h)) == gradient_direction(spec_gradient_terms(0)),
        h == 13 ==> gradient_direction(spec_gradient_terms(h)) == gradient_direction(spec_gradient_terms(9)),
        h == 14 ==> gradient_direction(spec_gradient_terms(h)) == gradient_direction(spec_gradient_terms(1)),
        h == 15 ==> gradient_direction(spec_gradient_terms(h)) == gradient_direction(spec_gradient_terms(11)),
        ({
            let d = gradient_direction(spec_gradient_terms(h));
            &&& -1 <= d.0 <= 1 && -1 <= d.1 <= 1 && -1 <= d.2 <= 1
            &&& (if d.0 != 0 { 1int } else { 0 }) + (if d.1 != 0 { 1int } else { 0 }) + (if d.2 != 0 { 1int } else { 0 }) == 2
        }),
{
}

/// Distinct codes below twelve give distinct gradients.
pub proof fn lemma_gradient_edges_distinct(h1: int, h2: int)
    requires
        0 <= h1 < 12,
        0 <= h2 < 12,
        h1 != h2,
    ensures
        gradient_direction(spec_gradient_terms(h1)) != gradient_direction(spec_gradient_terms(h2)),
{
    lemma_gradient_table(h1);
    lemma_gradient_table(h2);
}

/// Offsets `(di, dj, dk)` of the second and third corners of the simplex that
/// contains a point, chosen from how its skewed-cell coordinates compare.
pub open spec fn spec_simplex_corners(x_ge_y: bool, y_ge_z: bool, x_ge_z: bool) -> ((u8, u8, u8), (u8, u8, u8)) {
    if x_ge_y {
        if y_ge_z {
            ((1, 0, 0), (1, 1, 0))
        } else if x_ge_z {
            ((1, 0, 0), (1, 0, 1))
        } else {
            ((0, 0, 1), (1, 0, 1))
        }
    } else {
        if !y_ge_z {
            ((0, 0, 1), (0, 1, 1))
        } else if !x_ge_z {
            ((0, 1, 0), (0, 1, 1))
        } else {
            ((0, 1, 0), (1, 1, 0))
        }
    }
}

/// Picks the simplex corner offsets from the comparisons `x0 >= y0`,
/// `y0 >= z0` and `x0 >= z0` of the point's offsets inside its cell.
pub fn simplex_corners(x_ge_y: bool, y_ge_z: bool, x_ge_z: bool) -> (c: ((u8, u8, u8), (u8, u8, u8)))
    ensures
        c == spec_simplex_corners(x_ge_y, y_ge_z, x_ge_z),
{
    if x_ge_y {
        if y_ge_z {
            ((1, 0, 0), (1, 1, 0))
        } else if x_ge_z {
            ((1, 0, 0), (1, 0, 1))
        } else {
            ((0, 0, 1), (1, 0, 1))
        }
    } else {
        if !y_ge_z {
            ((0, 0, 1), (0, 1, 1))
        } else if !x_ge_z {
            ((0, 1, 0), (0, 1, 1))
        } else {
            ((0, 1, 0), (1, 1, 0))
        }
    }
}

/// The coordinate of `(a, b, c)` that a 0/1 offset selects, summed.
pub open spec fn weight(o: (u8, u8, u8), a: int, b: int, c: int) -> int {
    o.0 * a + o.1 * b + o.2 * c
}

/// Simplex traversal law: for coordinates `a`, `b`, `c`, the second corner
/// steps one unit along an axis of largest coordinate, the third corner adds
/// a step along a second axis so that only an axis of smallest coordinate is
/// left out, and the second corner lies below the third.
pub proof fn lemma_simplex_corners_follow_order(a: int, b: int, c: int)
    ensures
        ({
            let (c1, c2) = spec_simplex_corners(a >= b, b >= c, a >= c);
            &&& c1.0 + c1.1 + c1.2 == 1
            &&& c2.0 + c2.1 + c2.2 == 2
            &&& c1.0 <= c2.0 && c1.1 <= c2.1 && c1.2 <= c2.2
            &&& c1.0 <= 1 && c1.1 <= 1 && c1.2 <= 1
            &&& c2.0 <= 1 && c2.1 <= 1 && c2.2 <= 1
            &&& weight(c1, a, b, c) >= a && weight(c1, a, b, c) >= b && weight(c1, a, b, c) >= c
            &&& weight(c2, a, b, c) >= a + b && weight(c2, a, b, c) >= b + c && weight(c2, a, b, c) >= a + c
        }),
{
    let (c1, c2) = spec_simplex_corners(a >= b, b >= c, a >= c);
    if a >= b {
        if b >= c {
            assert(weight(c1, a, b, c) == a && weight(c2, a, b, c) == a + b);
        } else if a >= c {
            assert(weight(c1, a, b, c) == a && weight(c2, a, b, c) == a + c);
        } else {
            assert(weight(c1, a, b, c) == c && weight(c2, a, b, c) == a + c);
        }
    } else {
        if !(b >= c) {
            assert(weight(c1, a, b, c) == c && weight(c2, a, b, c) == b + c);
        } else if !(a >= c) {
            assert(weight(c1, a, b, c) == b && weight(c2, a, b, c) == b + c);
        } else {
            assert(weight(c1, a, b, c) == b && weight(c2, a, b, c) == a + b);
        }
    }
}

} // verus!
