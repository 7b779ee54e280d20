//! Orbit paths drawn as dotted circles of projected markers.
use vstd::prelude::*;

verus! {

/// Renders orbit paths as dotted circles of `segments` steps.
pub struct OrbitRenderer {
    segments: usize,
}

/// Brightness of a marker pixel relative to the orbit color.
#[derive(Clone, Copy, Debug, PartialEq, Eq, Structural)]
pub enum MarkerShade {
    /// The orbit color.
    Center,
    /// The orbit color scaled down for the side pixels.
    Side,
}

impl OrbitRenderer {
    pub closed spec fn spec_segments(&self) -> usize {
        self.segments
    }

    /// A renderer that splits each orbit into `segments` steps.
    pub fn new(segments: usize) -> (r: OrbitRenderer)
        ensures
            r.spec_segments() == segments,
    {
        OrbitRenderer { segments }
    }

    #[verifier::when_used_as_spec(spec_segments)]
    pub fn segments(&self) -> (n: usize)
        ensures
            n == self.spec_segments(),
    {
        self.segments
    }

    /// The steps that get a marker: every other one, starting with step 0,
    /// in increasing order.
    pub fn dot_segments(&self) -> (dots: Vec<usize>)
        ensures
            dots@.len() == (self.segments() + 1) / 2,
            forall|k: int| 0 <= k < dots@.len() ==> #[trigger] dots@[k] == 2 * k,
            forall|k: int| 0 <= k < dots@.len() ==> #[trigger] dots@[k] < self.segments(),
    {
        let mut dots: Vec<usize> = Vec::new();
        let mut i: usize = 0;
        while i < self.segments
            invariant
                i <= self.segments,
                dots@.len() == (i + 1) / 2,
                forall|k: int| 0 <= k < dots@.len() ==> #[trigger] dots@[k] == 2 * k,
                forall|k: int| 0 <= k < dots@.len() ==> #[trigger] dots@[k] < i,
            decreases self.segments - i,
        {
            if i % 2 == 0 {
                dots.push(i);
            }
            i = i + 1;
        }
        dots
    }
}

/// Pixels of the marker drawn at a projected orbit point `(x, y)`: the point
/// itself, then its right and left neighbours at reduced brightness.
pub open spec fn spec_marker_footprint(x: int, y: int) -> Seq<(int, int, MarkerShade)> {
    seq![(x, y, MarkerShade::Center), (x + 1, y, MarkerShade::Side), (x - 1, y, MarkerShade::Side)]
}

/// The pixels of the marker at `(x, y)`, in drawing order.
pub fn marker_footprint(x: i32, y: i32) -> (out: Vec<(i32, i32, MarkerShade)>)
    requires
        i32::MIN < x < i32::MAX,
    ensures
        out@.len() == 3,
        forall|k: int|
            0 <= k < 3 ==> {
                let (px, py, shade) = #[trigger] out@[k];
                spec_marker_footprint(x as int, y as int)[k] == (px as int, py as int, shade)
            },
{
    let mut out: Vec<(i32, i32, MarkerShade)> = Vec::new();
    out.push((x, y, MarkerShade::Center));
    out.push((x + 1, y, MarkerShade::Side));
    out.push((x - 1, y, MarkerShade::Side));
    out
}


/// Marker law: a marker lights its own pixel in the orbit color and the two
/// pixels beside it on the same row, left and right, at the reduced
/// brightness, each once.
pub proof fn lemma_marker_shape(x: int, y: int)
    ensures
        spec_marker_footprint(x, y).len() == 3,
        forall|k: int|
            0 <= k < 3 ==> {
                let p = #[trigger] spec_marker_footprint(x, y)[k];
                &&& p.1 == y
                &&& (p.2 == MarkerShade::Center <==> p.0 == x)
                &&& (p.2 == MarkerShade::Side <==> (p.0 == x + 1 || p.0 == x - 1))
            },
        spec_marker_footprint(x, y).contains((x + 1, y, MarkerShade::Side)),
        spec_marker_footprint(x, y).contains((x - 1, y, MarkerShade::Side)),
        spec_marker_footprint(x, y).contains((x, y, MarkerShade::Center)),
{
    let f = spec_marker_footprint(x, y);
    assert(f[0] == (x, y, MarkerShade::Center));
    assert(f[1] == (x + 1, y, MarkerShade::Side));
    assert(f[2] == (x - 1, y, MarkerShade::Side));
}

} // verus!
