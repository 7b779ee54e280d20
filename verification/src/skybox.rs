//! Star field: which pixels a star lights and how strongly.
use vstd::prelude::*;

verus! {

/// Brightness of a lit pixel relative to the star's color.
#[derive(Clone, Copy, Debug, PartialEq, Eq, Structural)]
pub enum StarShade {
    /// The star's own color.
    Core,
    /// Half of it.
    Dim,
    /// A quarter of it.
    Faint,
}

/// Pixels lit by a star at `(x, y)` of the given size, in drawing order:
/// the center; from size 1 the four orthogonal neighbours at half
/// brightness; from size 2 also the two diagonal neighbours down-right and
/// up-left at a quarter.
pub open spec fn spec_star_footprint(x: int, y: int, size: u8) -> Seq<(int, int, StarShade)> {
    seq![(x, y, StarShade::Core)] + (if size >= 1 {
        seq![
            (x + 1, y, StarShade::Dim),
            (x - 1, y, StarShade::Dim),
            (x, y + 1, StarShade::Dim),
            (x, y - 1, StarShade::Dim),
        ]
    } else {
        Seq::empty()
    }) + (if size >= 2 {
        seq![(x + 1, y + 1, StarShade::Faint), (x - 1, y - 1, StarShade::Faint)]
    } else {
        Seq::empty()
    })
}

/// The pixels that drawing a star of `size` at `(x, y)` lights, in order.
pub fn star_footprint(x: i32, y: i32, size: u8) -> (out: Vec<(i32, i32, StarShade)>)
    requires
        size >= 1 ==> i32::MIN < x < i32::MAX && i32::MIN < y < i32::MAX,
    ensures
        out@.len() == spec_star_footprint(x as int, y as int, size).len(),
        forall|k: int|
            0 <= k < out@.len() ==> {
                let (px, py, shade) = #[trigger] out@[k];
                spec_star_footprint(x as int, y as int, size)[k] == (px as int, py as int, shade)
            },
{
    let mut out: Vec<(i32, i32, StarShade)> = Vec::new();
    out.push((x, y, StarShade::Core));
    if size >= 1 {
        out.push((x + 1, y, StarShade::Dim));
        out.push((x - 1, y, StarShade::Dim));
        out.push((x, y + 1, StarShade::Dim));
        out.push((x, y - 1, StarShade::Dim));
    }
    if size >= 2 {
        out.push((x + 1, y + 1, StarShade::Faint));
        out.push((x - 1, y - 1, StarShade::Faint));
    }
    out
}

/// A star lights one pixel at size 0, five at size 1 and seven from size 2,
/// all distinct and none farther than one pixel in either direction.
pub proof fn lemma_star_footprint_shape(x: int, y: int, size: u8)
    ensures
        spec_star_footprint(x, y, size).len() == (if size == 0 {
            1int
        } else if size == 1 {
            5int
        } else {
            7int
        }),
        forall|k: int|
            0 <= k < spec_star_footprint(x, y, size).len() ==> {
                let p = #[trigger] spec_star_footprint(x, y, size)[k];
                &&& x - 1 <= p.0 <= x + 1
                &&& y - 1 <= p.1 <= y + 1
            },
        forall|i: int, j: int|
            0 <= i < j < spec_star_footprint(x, y, size).len() ==> {
                let p = #[trigger] spec_star_footprint(x, y, size)[i];
                let q = #[trigger] spec_star_footprint(x, y, size)[j];
                p.0 != q.0 || p.1 != q.1
            },
{
}


/// Star shading law: the center is drawn in the star's color, an orthogonal
/// neighbour at half of it (from size 1 on, whatever the size), and a
/// diagonal neighbour at a quarter (from size 2 on); nothing else is lit.
pub proof fn lemma_star_footprint_shades(x: int, y: int, size: u8)
    ensures
        forall|k: int|
            0 <= k < spec_star_footprint(x, y, size).len() ==> {
                let p = #[trigger] spec_star_footprint(x, y, size)[k];
                let dx = p.0 - x;
                let dy = p.1 - y;
                &&& (p.2 == StarShade::Core <==> dx == 0 && dy == 0)
                &&& (p.2 == StarShade::Dim <==> (dx == 0 || dy == 0) && (dx != 0 || dy != 0))
                &&& (p.2 == StarShade::Faint <==> dx != 0 && dy != 0)
            },
        size >= 1 ==> forall|dx: int, dy: int|
            #![trigger spec_star_footprint(x, y, size).contains((x + dx, y + dy, StarShade::Dim))]
            (dx == 0 || dy == 0) && -1 <= dx <= 1 && -1 <= dy <= 1 && (dx != 0 || dy != 0)
                ==> spec_star_footprint(x, y, size).contains((x + dx, y + dy, StarShade::Dim)),
{
    let f = spec_star_footprint(x, y, size);
    if size >= 1 {
        assert(f[1] == (x + 1, y, StarShade::Dim));
        assert(f[2] == (x - 1, y, StarShade::Dim));
        assert(f[3] == (x, y + 1, StarShade::Dim));
        assert(f[4] == (x, y - 1, StarShade::Dim));
    }
}

/// A bigger star lights the pixels of a smaller one, with the same shades and
/// in the same order, and only adds more after them.
pub proof fn lemma_bigger_star_extends(x: int, y: int, small: u8, big: u8)
    requires
        small <= big,
    ensures
        spec_star_footprint(x, y, small).len() <= spec_star_footprint(x, y, big).len(),
        forall|k: int|
            0 <= k < spec_star_footprint(x, y, small).len() ==> #[trigger] spec_star_footprint(x, y, small)[k]
                == spec_star_footprint(x, y, big)[k],
{
}

} // verus!
