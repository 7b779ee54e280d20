//! Primitive assembly and scan: grouping the per-vertex results of a draw
//! call into triangles, and the pixel rows and columns a triangle's bounding
//! box covers.
use vstd::prelude::*;

verus! {

/// Number of whole triangles that two per-vertex lists of lengths `a` and `b`
/// yield together: triples are taken from both until either runs out.
pub open spec fn triangle_count(a: int, b: int) -> int {
    if a / 3 <= b / 3 {
        a / 3
    } else {
        b / 3
    }
}

/// Groups `vertices` and the matching `world_positions` into triangles:
/// triangle `t` is made of entries `3t`, `3t + 1`, `3t + 2` of each list;
/// a trailing partial triple is dropped.
pub fn assemble_triangles<V: Copy, W: Copy>(vertices: &Vec<V>, world_positions: &Vec<W>) -> (tris: Vec<
    ((V, V, V), (W, W, W)),
>)
    ensures
        tris@.len() == triangle_count(vertices@.len() as int, world_positions@.len() as int),
        forall|t: int|
            0 <= t < tris@.len() ==> #[trigger] tris@[t] == (
                (vertices@[3 * t], vertices@[3 * t + 1], vertices@[3 * t + 2]),
                (world_positions@[3 * t], world_positions@[3 * t + 1], world_positions@[3 * t + 2]),
            ),
{
    let a = vertices.len() / 3;
    let b = world_positions.len() / 3;
    let count = if a <= b {
        a
    } else {
        b
    };
    proof {
        vstd::arithmetic::div_mod::lemma_fundamental_div_mod(vertices@.len() as int, 3);
        vstd::arithmetic::div_mod::lemma_fundamental_div_mod(world_positions@.len() as int, 3);
    }
    let mut tris: Vec<((V, V, V), (W, W, W))> = Vec::with_capacity(count);
    let mut t: usize = 0;
    while t < count
        invariant
            t <= count,
            count == triangle_count(vertices@.len() as int, world_positions@.len() as int),
            3 * count <= vertices.len(),
            3 * count <= world_positions.len(),
            tris@.len() == t,
            forall|i: int|
                0 <= i < t ==> #[trigger] tris@[i] == (
                    (vertices@[3 * i], vertices@[3 * i + 1], vertices@[3 * i + 2]),
                    (world_positions@[3 * i], world_positions@[3 * i + 1], world_positions@[3 * i + 2]),
                ),
        decreases count - t,
    {
        let i = 3 * t;
        let tri = (
            (vertices[i], vertices[i + 1], vertices[i + 2]),
            (world_positions[i], world_positions[i + 1], world_positions[i + 2]),
        );
        tris.push(tri);
        t = t + 1;
    }
    tris
}


/// Number of integers in the inclusive range `lo..=hi`.
pub open spec fn span_len(lo: int, hi: int) -> int {
    if lo <= hi {
        hi - lo + 1
    } else {
        0
    }
}

/// The integers `lo, lo + 1, ..., hi` in increasing order (none when
/// `lo > hi`): the rows, or the columns, of a bounding box scanned by the
/// rasterizer.
pub fn scan_span(lo: i32, hi: i32) -> (out: Vec<i32>)
    ensures
        out@.len() == span_len(lo as int, hi as int),
        forall|k: int| 0 <= k < out@.len() ==> #[trigger] out@[k] == lo + k,
{
    let mut out: Vec<i32> = Vec::new();
    let mut cur: i64 = lo as i64;
    while cur <= hi as i64
        invariant
            lo <= cur <= hi + 1 || (cur == lo && lo > hi),
            out@.len() == cur - lo,
            forall|k: int| 0 <= k < out@.len() ==> #[trigger] out@[k] == lo + k,
        decreases hi + 1 - cur,
    {
        out.push(cur as i32);
        cur = cur + 1;
    }
    out
}

} // verus!
