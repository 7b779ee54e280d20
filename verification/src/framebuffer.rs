//! Depth-tested framebuffer: screen bounds, pixel addressing and the z-buffer.
//!
//! Depths are stored as `u32` keys made from the bit patterns of the `f32`
//! depths by `depth_key`; `FAR_DEPTH` is the key of a cleared pixel (nothing
//! drawn, depth +infinity).
use vstd::prelude::*;

verus! {

/// Depth key of a pixel that holds nothing: every drawable depth is nearer.
pub const FAR_DEPTH: u32 = 0xFFFF_FFFF;

/// Sign-magnitude value of an `f32` bit pattern: the sign bit negates the
/// other 31 bits. For patterns that are not NaN, `f32` order is the order of
/// these values, with -0 and +0 both at 0.
pub open spec fn sign_magnitude(bits: u32) -> int {
    if bits >= 0x8000_0000 {
        -(bits - 0x8000_0000)
    } else {
        bits as int
    }
}

/// NaN patterns: exponent all ones and a non-zero mantissa, either sign.
pub open spec fn is_nan_bits(bits: u32) -> bool {
    bits % 0x8000_0000 > 0x7F80_0000
}

/// The pattern of +infinity.
pub open spec fn is_pos_infinity_bits(bits: u32) -> bool {
    bits == 0x7F80_0000
}

/// Depth key of an `f32` bit pattern: NaN and +infinity, which no depth test
/// lets through, get `FAR_DEPTH`; every other pattern gets its sign-magnitude
/// value moved up by 2^31.
pub open spec fn spec_depth_key(bits: u32) -> u32 {
    if is_nan_bits(bits) || is_pos_infinity_bits(bits) {
        FAR_DEPTH
    } else {
        (0x8000_0000 + sign_magnitude(bits)) as u32
    }
}

/// The depth key of the `f32` whose bit pattern is `bits`.
pub fn depth_key(bits: u32) -> (key: u32)
    ensures
        key == spec_depth_key(bits),
{
    let magnitude = bits % 0x8000_0000;
    if magnitude > 0x7F80_0000 || bits == 0x7F80_0000 {
        FAR_DEPTH
    } else if bits >= 0x8000_0000 {
        0x8000_0000 - magnitude
    } else {
        0x8000_0000 + magnitude
    }
}

/// Depth keys keep the order of depths: for two patterns that are not NaN,
/// one key is below the other exactly when its sign-magnitude value is, and
/// keys are equal exactly when the values are (so -0 and +0 share a key).
/// Only +infinity and NaN reach `FAR_DEPTH`, so no such depth is ever drawn
/// over a cleared pixel, and every finite depth is.
pub proof fn lemma_depth_key_order(a: u32, b: u32)
    ensures
        !is_nan_bits(a) && !is_nan_bits(b) ==> (spec_depth_key(a) < spec_depth_key(b) <==> sign_magnitude(a)
            < sign_magnitude(b)),
        !is_nan_bits(a) && !is_nan_bits(b) ==> (spec_depth_key(a) == spec_depth_key(b) <==> sign_magnitude(a)
            == sign_magnitude(b)),
        spec_depth_key(a) == FAR_DEPTH <==> (is_nan_bits(a) || is_pos_infinity_bits(a)),
{
}

/// An 8-bit RGBA color.
#[derive(Clone, Copy, Debug, PartialEq, Eq, Structural)]
pub struct Color {
    pub r: u8,
    pub g: u8,
    pub b: u8,
    pub a: u8,
}

impl Color {
    pub fn new(r: u8, g: u8, b: u8, a: u8) -> (c: Color)
        ensures
            c == (Color { r, g, b, a }),
    {
        Color { r, g, b, a }
    }

    /// Opaque black, the initial background.
    pub fn black() -> (c: Color)
        ensures
            c == (Color { r: 0, g: 0, b: 0, a: 255 }),
    {
        Color { r: 0, g: 0, b: 0, a: 255 }
    }
}

/// Whether `(x, y)` lies on a `width` x `height` screen.
pub open spec fn in_bounds(width: int, height: int, x: int, y: int) -> bool {
    0 <= x < width && 0 <= y < height
}

/// Row-major position of pixel `(x, y)` in the buffers.
pub open spec fn pixel_index(width: int, x: int, y: int) -> int {
    y * width + x
}

/// The depth buffer after one depth-tested write of `depth` at `(x, y)`:
/// the pixel takes the new depth only if it lies on screen and is nearer.
pub open spec fn depth_after_point(
    depths: Seq<u32>,
    width: int,
    height: int,
    x: int,
    y: int,
    depth: u32,
) -> Seq<u32> {
    if in_bounds(width, height, x, y) && depth < depths[pixel_index(width, x, y)] {
        depths.update(pixel_index(width, x, y), depth)
    } else {
        depths
    }
}

/// Whether a depth-tested write of `depth` at `(x, y)` draws the pixel.
pub open spec fn point_draws(depths: Seq<u32>, width: int, height: int, x: int, y: int, depth: u32) -> bool {
    in_bounds(width, height, x, y) && depth < depths[pixel_index(width, x, y)]
}

/// The depth buffer after a sequence of depth-tested writes `(x, y, depth)`, in order.
pub open spec fn depth_after_points(
    depths: Seq<u32>,
    width: int,
    height: int,
    frags: Seq<(i32, i32, u32)>,
) -> Seq<u32>
    decreases frags.len(),
{
    if frags.len() == 0 {
        depths
    } else {
        let last = frags.last();
        depth_after_point(
            depth_after_points(depths, width, height, frags.drop_last()),
            width,
            height,
            last.0 as int,
            last.1 as int,
            last.2,
        )
    }
}

/// The nearest depth that the writes in `frags` bring to buffer position `k`,
/// starting from `start`.
pub open spec fn nearest_at(start: u32, width: int, height: int, frags: Seq<(i32, i32, u32)>, k: int) -> u32
    decreases frags.len(),
{
    if frags.len() == 0 {
        start
    } else {
        let prev = nearest_at(start, width, height, frags.drop_last(), k);
        let last = frags.last();
        if in_bounds(width, height, last.0 as int, last.1 as int)
            && pixel_index(width, last.0 as int, last.1 as int) == k && last.2 < prev {
            last.2
        } else {
            prev
        }
    }
}

/// Color and depth state of the render target, minus the pixel storage itself:
/// it decides which fragments reach the screen.
pub struct Framebuffer {
    width: i32,
    height: i32,
    background_color: Color,
    depth_buffer: Vec<u32>,
}

impl Framebuffer {
    pub closed spec fn spec_width(&self) -> i32 {
        self.width
    }

    pub closed spec fn spec_height(&self) -> i32 {
        self.height
    }

    #[verifier::when_used_as_spec(spec_width)]
    pub fn width(&self) -> (w: i32)
        ensures
            w == self.spec_width(),
    {
        self.width
    }

    #[verifier::when_used_as_spec(spec_height)]
    pub fn height(&self) -> (h: i32)
        ensures
            h == self.spec_height(),
    {
        self.height
    }

    /// The depth buffer, row by row.
    pub closed spec fn depths(&self) -> Seq<u32> {
        self.depth_buffer@
    }

    pub closed spec fn background(&self) -> Color {
        self.background_color
    }

    /// The product of the dimensions is a non-negative `i32`, and the depth
    /// buffer has that many entries.
    pub closed spec fn wf(&self) -> bool {
        &&& 0 <= self.width() * self.height() <= i32::MAX
        &&& self.depths().len() == self.width() * self.height()
    }

    /// Creates a `width` x `height` framebuffer with a black background and
    /// every entry at `FAR_DEPTH`. With a negative dimension no pixel is on
    /// screen.
    pub fn new(width: i32, height: i32) -> (fb: Framebuffer)
        requires
            0 <= width * height <= i32::MAX,
        ensures
            fb.wf(),
            fb.width() == width,
            fb.height() == height,
            fb.background() == (Color { r: 0, g: 0, b: 0, a: 255 }),
            forall|k: int| 0 <= k < fb.depths().len() ==> fb.depths()[k] == FAR_DEPTH,
    {
        let n: usize = (width * height) as usize;
        let mut depth_buffer: Vec<u32> = Vec::with_capacity(n);
        let mut i: usize = 0;
        while i < n
            invariant
                i <= n,
                depth_buffer@.len() == i,
                forall|k: int| 0 <= k < i ==> depth_buffer@[k] == FAR_DEPTH,
            decreases n - i,
        {
            depth_buffer.push(FAR_DEPTH);
            i = i + 1;
        }
        Framebuffer { width, height, background_color: Color::black(), depth_buffer }
    }

    /// Resets every pixel to `FAR_DEPTH`; dimensions and background stay.
    pub fn clear(&mut self)
        requires
            old(self).wf(),
        ensures
            final(self).wf(),
            final(self).width() == old(self).width(),
            final(self).height() == old(self).height(),
            final(self).background() == old(self).background(),
            final(self).depths().len() == old(self).depths().len(),
            forall|k: int| 0 <= k < final(self).depths().len() ==> final(self).depths()[k] == FAR_DEPTH,
    {
        let n = self.depth_buffer.len();
        let mut i: usize = 0;
        while i < n
            invariant
                i <= n,
                n == self.depth_buffer@.len(),
                n == old(self).depths().len(),
                self.width() == old(self).width(),
                self.height() == old(self).height(),
                self.background_color == old(self).background(),
                forall|k: int| 0 <= k < i ==> self.depth_buffer@[k] == FAR_DEPTH,
            decreases n - i,
        {
            self.depth_buffer.set(i, FAR_DEPTH);
            i = i + 1;
        }
    }

    /// Whether `(x, y)` lies on the screen.
    pub fn contains(&self, x: i32, y: i32) -> (r: bool)
        ensures
            r == in_bounds(self.width() as int, self.height() as int, x as int, y as int),
    {
        x >= 0 && x < self.width() && y >= 0 && y < self.height()
    }

    /// Row-major buffer position of an on-screen pixel.
    pub fn index_of(&self, x: i32, y: i32) -> (idx: usize)
        requires
            self.wf(),
            in_bounds(self.width() as int, self.height() as int, x as int, y as int),
        ensures
            idx == pixel_index(self.width() as int, x as int, y as int),
            idx < self.depths().len(),
    {
        proof {
            lemma_pixel_index_in_range(self.width() as int, self.height() as int, x as int, y as int);
        }
        (y * self.width() + x) as usize
    }

    /// Depth-tested write at `(x, y)`. The pixel is drawn, and takes `depth`,
    /// only if it lies on the screen and `depth` is nearer than what it holds;
    /// the result says whether it was drawn. Nothing else changes.
    pub fn point(&mut self, x: i32, y: i32, depth: u32) -> (drawn: bool)
        requires
            old(self).wf(),
        ensures
            final(self).wf(),
            final(self).width() == old(self).width(),
            final(self).height() == old(self).height(),
            final(self).background() == old(self).background(),
            drawn == point_draws(
                old(self).depths(),
                old(self).width() as int,
                old(self).height() as int,
                x as int,
                y as int,
                depth,
            ),
            final(self).depths() == depth_after_point(
                old(self).depths(),
                old(self).width() as int,
                old(self).height() as int,
                x as int,
                y as int,
                depth,
            ),
            forall|k: int|
                0 <= k < final(self).depths().len() ==> final(self).depths()[k] <= old(self).depths()[k],
            !(0 <= x < old(self).width() && 0 <= y < old(self).height()) ==> !drawn && final(self).depths()
                == old(self).depths(),
            0 <= x < old(self).width() && 0 <= y < old(self).height() ==> {
                let k = y * old(self).width() + x;
                &&& (drawn <==> depth < old(self).depths()[k])
                &&& final(self).depths()[k] == (if depth < old(self).depths()[k] {
                    depth
                } else {
                    old(self).depths()[k]
                })
                &&& forall|i: int|
                    0 <= i < final(self).depths().len() && i != k ==> #[trigger] final(self).depths()[i] == old(
                        self,
                    ).depths()[i]
            },
    {
        proof {
            if 0 <= x < self.width() && 0 <= y < self.height() {
                lemma_pixel_index_in_range(self.width() as int, self.height() as int, x as int, y as int);
            }
        }
        if x >= 0 && x < self.width() && y >= 0 && y < self.height() {
            let index = self.index_of(x, y);
            if depth < self.depth_buffer[index] {
                self.depth_buffer.set(index, depth);
                return true;
            }
        }
        false
    }

    /// Depth-tested writes of `frags` in order, as `point` does each; the
    /// result says, fragment by fragment, whether it was drawn.
    pub fn point_all(&mut self, frags: &Vec<(i32, i32, u32)>) -> (drawn: Vec<bool>)
        requires
            old(self).wf(),
        ensures
            final(self).wf(),
            final(self).width() == old(self).width(),
            final(self).height() == old(self).height(),
            final(self).background() == old(self).background(),
            final(self).depths() == depth_after_points(
                old(self).depths(),
                old(self).width() as int,
                old(self).height() as int,
                frags@,
            ),
            drawn@.len() == frags@.len(),
            forall|k: int|
                0 <= k < frags@.len() ==> #[trigger] drawn@[k] == point_draws(
                    depth_after_points(
                        old(self).depths(),
                        old(self).width() as int,
                        old(self).height() as int,
                        frags@.take(k),
                    ),
                    old(self).width() as int,
                    old(self).height() as int,
                    frags@[k].0 as int,
                    frags@[k].1 as int,
                    frags@[k].2,
                ),
    {
        let n = frags.len();
        let mut drawn: Vec<bool> = Vec::with_capacity(n);
        let mut k: usize = 0;
        while k < n
            invariant
                k <= n,
                n == frags@.len(),
                self.wf(),
                self.width() == old(self).width(),
                self.height() == old(self).height(),
                self.background() == old(self).background(),
                self.depths() == depth_after_points(
                    old(self).depths(),
                    old(self).width() as int,
                    old(self).height() as int,
                    frags@.take(k as int),
                ),
                drawn@.len() == k,
                forall|i: int|
                    0 <= i < k ==> #[trigger] drawn@[i] == point_draws(
                        depth_after_points(
                            old(self).depths(),
                            old(self).width() as int,
                            old(self).height() as int,
                            frags@.take(i),
                        ),
                        old(self).width() as int,
                        old(self).height() as int,
                        frags@[i].0 as int,
                        frags@[i].1 as int,
                        frags@[i].2,
                    ),
            decreases n - k,
        {
            let (x, y, depth) = frags[k];
            let d = self.point(x, y, depth);
            drawn.push(d);
            proof {
                let t = frags@.take(k + 1);
                assert(t.drop_last() =~= frags@.take(k as int));
                assert(t.last() == frags@[k as int]);
            }
            k = k + 1;
        }
        proof {
            assert(frags@.take(n as int) =~= frags@);
        }
        drawn
    }

    /// Sets the color that clearing the screen paints.
    pub fn set_background_color(&mut self, color: Color)
        requires
            old(self).wf(),
        ensures
            final(self).wf(),
            final(self).width() == old(self).width(),
            final(self).height() == old(self).height(),
            final(self).depths() == old(self).depths(),
            final(self).background() == color,
    {
        self.background_color = color;
    }

    pub fn background_color(&self) -> (c: Color)
        ensures
            c == self.background(),
    {
        self.background_color
    }

    /// Depth held at `(x, y)`, or `None` off screen.
    pub fn depth_at(&self, x: i32, y: i32) -> (d: Option<u32>)
        requires
            self.wf(),
        ensures
            d == (if in_bounds(self.width() as int, self.height() as int, x as int, y as int) {
                Some(self.depths()[pixel_index(self.width() as int, x as int, y as int)])
            } else {
                None
            }),
    {
        if self.contains(x, y) {
            let idx = self.index_of(x, y);
            Some(self.depth_buffer[idx])
        } else {
            None
        }
    }
}

/// An on-screen pixel has a buffer position below `width * height`.
pub proof fn lemma_pixel_index_in_range(width: int, height: int, x: int, y: int)
    requires
        in_bounds(width, height, x, y),
    ensures
        0 <= pixel_index(width, x, y) < width * height,
{
    assert(y * width + x < width * height) by (nonlinear_arith)
        requires
            0 <= x < width,
            0 <= y < height,
    ;
    assert(0 <= y * width) by (nonlinear_arith)
        requires
            0 <= x < width,
            0 <= y,
    ;
}

/// Distinct on-screen pixels occupy distinct buffer positions.
pub proof fn lemma_pixel_index_injective(width: int, height: int, x1: int, y1: int, x2: int, y2: int)
    requires
        in_bounds(width, height, x1, y1),
        in_bounds(width, height, x2, y2),
        pixel_index(width, x1, y1) == pixel_index(width, x2, y2),
    ensures
        x1 == x2,
        y1 == y2,
{
    if y1 < y2 {
        assert(y1 * width + width <= y2 * width) by (nonlinear_arith)
            requires
                y1 < y2,
                0 <= width,
        ;
    } else if y2 < y1 {
        assert(y2 * width + width <= y1 * width) by (nonlinear_arith)
            requires
                y2 < y1,
                0 <= width,
        ;
    }
}

/// Z-buffer law: after any sequence of depth-tested writes, every buffer
/// position holds the nearest of its starting depth and the depths written
/// to it; the buffer length never changes.
pub proof fn lemma_depth_buffer_keeps_nearest(
    depths: Seq<u32>,
    width: int,
    height: int,
    frags: Seq<(i32, i32, u32)>,
)
    requires
        0 <= width * height,
        depths.len() == width * height,
    ensures
        depth_after_points(depths, width, height, frags).len() == depths.len(),
        forall|k: int|
            0 <= k < depths.len() ==> #[trigger] depth_after_points(depths, width, height, frags)[k]
                == nearest_at(depths[k], width, height, frags, k),
    decreases frags.len(),
{
    if frags.len() > 0 {
        let prefix = frags.drop_last();
        lemma_depth_buffer_keeps_nearest(depths, width, height, prefix);
        let last = frags.last();
        let before = depth_after_points(depths, width, height, prefix);
        if in_bounds(width, height, last.0 as int, last.1 as int) {
            lemma_pixel_index_in_range(width, height, last.0 as int, last.1 as int);
        }
        assert forall|k: int| 0 <= k < depths.len() implies #[trigger] depth_after_points(
            depths,
            width,
            height,
            frags,
        )[k] == nearest_at(depths[k], width, height, frags, k) by {
            assert(before[k] == nearest_at(depths[k], width, height, prefix, k));
        }
    }
}

/// Two depth-tested writes leave the same depth buffer in either order.
pub proof fn lemma_points_commute(
    depths: Seq<u32>,
    width: int,
    height: int,
    x1: int,
    y1: int,
    d1: u32,
    x2: int,
    y2: int,
    d2: u32,
)
    requires
        0 <= width * height,
        depths.len() == width * height,
    ensures
        depth_after_point(depth_after_point(depths, width, height, x1, y1, d1), width, height, x2, y2, d2)
            == depth_after_point(
            depth_after_point(depths, width, height, x2, y2, d2),
            width,
            height,
            x1,
            y1,
            d1,
        ),
{
    let a = depth_after_point(depth_after_point(depths, width, height, x1, y1, d1), width, height, x2, y2, d2);
    let b = depth_after_point(depth_after_point(depths, width, height, x2, y2, d2), width, height, x1, y1, d1);
    if in_bounds(width, height, x1, y1) {
        lemma_pixel_index_in_range(width, height, x1, y1);
    }
    if in_bounds(width, height, x2, y2) {
        lemma_pixel_index_in_range(width, height, x2, y2);
    }
    assert(a =~= b);
}

} // verus!
