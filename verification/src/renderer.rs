//! The rasterization core: a color buffer with a parallel depth buffer,
//! pixel, line and triangle drawing.
//!
//! Every drawing operation is specified as a pure transition function on
//! [`RenderState`], the mathematical view of a renderer: the same buffers as
//! sequences, with the dimensions and the y-flip flag.

use vstd::prelude::*;

use crate::color::Color;
use crate::math::trunc_div;
use crate::math::Vec2u;
use crate::math::Vec3i;
use crate::texture::Texture;
use crate::texture::uv_to_texel;
use crate::texture::UV_ONE;

verus! {

/// The value every depth cell holds after a clear: the most negative
/// representable depth, so that the first draw at a pixel always wins the
/// depth test.
pub const DEPTH_CLEAR: i32 = -2147483647;

/// The mathematical view of a [`Renderer`]: dimensions, y-flip flag, the
/// color buffer and the depth buffer as sequences. Both buffers are row-major
/// with `width * height` cells.
#[verifier::ext_equal]
pub struct RenderState {
    pub width: int,
    pub height: int,
    pub flip_y: bool,
    pub pixels: Seq<Color>,
    pub depth: Seq<int>,
}

impl RenderState {
    /// Well-formed: both buffers hold exactly `width * height` cells and the
    /// cell count is addressable.
    pub open spec fn wf(self) -> bool {
        &&& 0 <= self.width
        &&& 0 <= self.height
        &&& self.width * self.height <= u32::MAX
        &&& self.pixels.len() == self.width * self.height
        &&& self.depth.len() == self.width * self.height
    }
}

/// The buffer row that holds pixel row `y`: rows are stored bottom-up when
/// the y axis is flipped, top-down otherwise.
pub open spec fn flip_row(s: RenderState, y: int) -> int {
    if s.flip_y {
        s.height - 1 - y
    } else {
        y
    }
}

/// The index of pixel (x, y) in the color buffer.
pub open spec fn pix_index(s: RenderState, x: int, y: int) -> int {
    flip_row(s, y) * s.width + x
}

/// The state after writing `color` at pixel (x, y): out-of-range writes
/// change nothing, in-range writes replace exactly one cell.
pub open spec fn spec_draw_pixel(s: RenderState, x: int, y: int, color: Color) -> RenderState {
    if 0 <= x < s.width && 0 <= y < s.height {
        RenderState { pixels: s.pixels.update(pix_index(s, x, y), color), ..s }
    } else {
        s
    }
}

/// A row-major index is within the buffer.
proof fn lemma_row_major_bound(x: int, y: int, w: int, h: int)
    requires
        0 <= x < w,
        0 <= y < h,
    ensures
        0 <= y * w + x < w * h,
{
    assert(0 <= y * w + x < w * h) by (nonlinear_arith)
        requires
            0 <= x < w,
            0 <= y < h,
    ;
}

/// Division of machine integers truncated toward zero, computed through the
/// magnitudes.
fn trunc_div_i64(a: i64, b: i64) -> (r: i64)
    requires
        b != 0,
        -0x4000000000000000 <= a <= 0x4000000000000000,
        -0x4000000000000000 <= b <= 0x4000000000000000,
    ensures
        r == trunc_div(a as int, b as int),
{
    let neg = (a < 0) != (b < 0);
    let ma: u64 = if a < 0 {
        (0i64 - a) as u64
    } else {
        a as u64
    };
    let mb: u64 = if b < 0 {
        (0i64 - b) as u64
    } else {
        b as u64
    };
    let q: u64 = ma / mb;
    proof {
        assert(ma == vstd::math::abs(a as int));
        assert(mb == vstd::math::abs(b as int));
        vstd::arithmetic::div_mod::lemma_div_is_ordered(ma as int, 0x4000000000000000, mb as int);
    }
    if neg {
        0i64 - (q as i64)
    } else {
        q as i64
    }
}

/// Out-of-range pixel coordinates never touch a well-formed buffer, whether
/// they are negative or beyond the largest possible dimension.
proof fn lemma_draw_pixel_out_of_u32(s: RenderState, x: int, y: int, color: Color)
    requires
        s.wf(),
        x < 0 || x > u32::MAX || y < 0 || y > u32::MAX,
    ensures
        spec_draw_pixel(s, x, y, color) == s,
{
    if 0 <= x && 0 <= y {
        if s.width == 0 || s.height == 0 {
        } else {
            assert(s.width <= s.width * s.height && s.height <= s.width * s.height)
                by (nonlinear_arith)
                requires
                    s.width >= 1,
                    s.height >= 1,
            ;
        }
    }
}

/// Whether the line from (x0, y0) to (x1, y1) is steeper than 45 degrees;
/// if so the roles of x and y are swapped so that the walk always follows
/// the major axis.
pub open spec fn line_steep(x0: int, y0: int, x1: int, y1: int) -> bool {
    vstd::math::abs(x0 - x1) < vstd::math::abs(y0 - y1)
}

/// The endpoints in "algorithm space": transposed when steep, then ordered
/// so that the walk proceeds left to right along the major axis. The result
/// is (a0, b0, a1, b1) with a0 <= a1.
pub open spec fn line_canon(x0: int, y0: int, x1: int, y1: int) -> (int, int, int, int) {
    let t = if line_steep(x0, y0, x1, y1) {
        (y0, x0, y1, x1)
    } else {
        (x0, y0, x1, y1)
    };
    if t.0 > t.2 {
        (t.2, t.3, t.0, t.1)
    } else {
        t
    }
}

/// One Bresenham walk from (x, y) to column x1 with error accumulator `err`:
/// the sequence of pixels it touches, in walk order. `dx` is the span of the
/// major axis, `dy2` twice the span of the minor axis, `sy` the step of the
/// minor axis; `steep` transposes each emitted pixel back to screen space.
pub open spec fn bres_walk(
    x: int,
    y: int,
    x1: int,
    err: int,
    dx: int,
    dy2: int,
    sy: int,
    steep: bool,
) -> Seq<(int, int)>
    decreases x1 + 1 - x,
{
    if x > x1 {
        Seq::empty()
    } else {
        let pt = if steep {
            (y, x)
        } else {
            (x, y)
        };
        let err2 = err + dy2;
        if err2 > dx {
            seq![pt] + bres_walk(x + 1, y + sy, x1, err2 - 2 * dx, dx, dy2, sy, steep)
        } else {
            seq![pt] + bres_walk(x + 1, y, x1, err2, dx, dy2, sy, steep)
        }
    }
}

/// The pixels of the Bresenham line from (x0, y0) to (x1, y1), inclusive,
/// in the order they are drawn.
pub open spec fn line_points(x0: int, y0: int, x1: int, y1: int) -> Seq<(int, int)> {
    let steep = line_steep(x0, y0, x1, y1);
    let c = line_canon(x0, y0, x1, y1);
    bres_walk(
        c.0,
        c.1,
        c.2,
        0,
        c.2 - c.0,
        2 * (vstd::math::abs(c.3 - c.1) as int),
        if c.3 > c.1 {
            1
        } else {
            -1
        },
        steep,
    )
}

/// The state after writing `color` at every point of `pts`, first point
/// first.
pub open spec fn spec_draw_points(s: RenderState, pts: Seq<(int, int)>, color: Color) -> RenderState
    decreases pts.len(),
{
    if pts.len() == 0 {
        s
    } else {
        spec_draw_points(spec_draw_pixel(s, pts[0].0, pts[0].1, color), pts.drop_first(), color)
    }
}

/// The canonical endpoints do not depend on the order the endpoints are
/// given in, so the whole Bresenham walk does not either.
pub proof fn lemma_line_points_symmetric(x0: int, y0: int, x1: int, y1: int)
    ensures
        line_points(x0, y0, x1, y1) == line_points(x1, y1, x0, y0),
{
    assert(line_canon(x0, y0, x1, y1) == line_canon(x1, y1, x0, y0));
}

/// Drawing a line changes the buffer identically whichever way round its
/// endpoints are passed: the two calls touch the identical set of pixels.
pub proof fn lemma_draw_line_symmetric(s: RenderState, v0: Vec2u, v1: Vec2u, color: Color)
    ensures
        spec_draw_points(s, line_points(v0.x as int, v0.y as int, v1.x as int, v1.y as int), color)
            == spec_draw_points(
            s,
            line_points(v1.x as int, v1.y as int, v0.x as int, v0.y as int),
            color,
        ),
{
    lemma_line_points_symmetric(v0.x as int, v0.y as int, v1.x as int, v1.y as int);
}

/// The largest coordinate magnitude `draw_triangle` and `barycentric` accept
/// for triangle vertices: keeps every intermediate product within a machine
/// word.
pub const TRI_COORD_LIMIT: i32 = 100000;

/// Whether a scalar is within the accepted triangle coordinate range.
pub open spec fn coord_ok(c: int) -> bool {
    -(TRI_COORD_LIMIT as int) <= c <= TRI_COORD_LIMIT as int
}

/// Whether all three vertices of a triangle are within the accepted
/// coordinate range.
pub open spec fn tri_ok(t0: Vec3i, t1: Vec3i, t2: Vec3i) -> bool {
    &&& coord_ok(t0.x as int) && coord_ok(t0.y as int) && coord_ok(t0.z as int)
    &&& coord_ok(t1.x as int) && coord_ok(t1.y as int) && coord_ok(t1.z as int)
    &&& coord_ok(t2.x as int) && coord_ok(t2.y as int) && coord_ok(t2.z as int)
}

/// Barycentric coordinates of a point against a triangle, as exact rationals
/// over one common denominator: the weight of vertex i is `numi / den`. The
/// numerators always sum to the denominator, so the weights sum to one.
#[derive(Clone, Copy, Debug, PartialEq, Eq, Structural)]
pub struct Barycentric {
    pub num0: i64,
    pub num1: i64,
    pub num2: i64,
    pub den: i64,
}

/// Whether every barycentric weight is nonnegative, that is, whether each
/// numerator has the denominator's sign: the point lies inside the triangle
/// (edges included).
pub open spec fn bary_inside(b: Barycentric) -> bool {
    if b.den > 0 {
        b.num0 >= 0 && b.num1 >= 0 && b.num2 >= 0
    } else {
        b.num0 <= 0 && b.num1 <= 0 && b.num2 <= 0
    }
}

impl Barycentric {
    /// Whether the point these coordinates were computed for lies inside the
    /// triangle: all three weights are nonnegative.
    pub fn is_inside(&self) -> (r: bool)
        ensures
            r == bary_inside(*self),
    {
        if self.den > 0 {
            self.num0 >= 0 && self.num1 >= 0 && self.num2 >= 0
        } else {
            self.num0 <= 0 && self.num1 <= 0 && self.num2 <= 0
        }
    }
}

/// The cross product behind the barycentric computation: the two edge/point
/// difference vectors per axis, crossed. The z component is twice the signed
/// triangle area; it is zero exactly when the triangle is degenerate.
pub open spec fn bary_cross(t0: Vec3i, t1: Vec3i, t2: Vec3i, px: int, py: int) -> (int, int, int) {
    let ax = t2.x - t0.x;
    let bx = t1.x - t0.x;
    let cx = t0.x - px;
    let ay = t2.y - t0.y;
    let by = t1.y - t0.y;
    let cy = t0.y - py;
    (bx * cy - cx * by, cx * ay - ax * cy, ax * by - bx * ay)
}

/// The barycentric coordinates of (px, py) against the triangle, ordered as
/// the vertices are. A degenerate triangle yields the marker (-1, 1, 1) over
/// denominator 1, which no inside test accepts.
pub open spec fn spec_barycentric(
    t0: Vec3i,
    t1: Vec3i,
    t2: Vec3i,
    px: int,
    py: int,
) -> Barycentric {
    let u = bary_cross(t0, t1, t2, px, py);
    if u.2 != 0 {
        Barycentric {
            num0: (u.2 - u.0 - u.1) as i64,
            num1: u.1 as i64,
            num2: u.0 as i64,
            den: u.2 as i64,
        }
    } else {
        Barycentric { num0: -1i64, num1: 1i64, num2: 1i64, den: 1i64 }
    }
}

/// The product of two bounded factors is bounded by the product of the
/// bounds.
proof fn lemma_mul_bound(a: int, b: int, m: int, n: int)
    requires
        -m <= a <= m,
        -n <= b <= n,
        0 <= m,
        0 <= n,
    ensures
        -(m * n) <= a * b <= m * n,
{
    assert(-(m * n) <= a * b <= m * n) by (nonlinear_arith)
        requires
            -m <= a <= m,
            -n <= b <= n,
            0 <= m,
            0 <= n,
    ;
}

/// Every product and component of the barycentric cross product stays far
/// within an `i64` when the triangle is in range, whatever `i32` point it is
/// taken at.
proof fn lemma_bary_cross_bounds(t0: Vec3i, t1: Vec3i, t2: Vec3i, px: int, py: int)
    requires
        tri_ok(t0, t1, t2),
        i32::MIN <= px <= i32::MAX,
        i32::MIN <= py <= i32::MAX,
    ensures
        ({
            let ax = t2.x - t0.x;
            let bx = t1.x - t0.x;
            let cx = t0.x - px;
            let ay = t2.y - t0.y;
            let by = t1.y - t0.y;
            let cy = t0.y - py;
            &&& -0x4000000000000i64 <= bx * cy <= 0x4000000000000i64
            &&& -0x4000000000000i64 <= cx * by <= 0x4000000000000i64
            &&& -0x4000000000000i64 <= cx * ay <= 0x4000000000000i64
            &&& -0x4000000000000i64 <= ax * cy <= 0x4000000000000i64
            &&& -0x8000000000i64 <= ax * by <= 0x8000000000i64
            &&& -0x8000000000i64 <= bx * ay <= 0x8000000000i64
        }),
        ({
            let u = bary_cross(t0, t1, t2, px, py);
            &&& -0x10000000000i64 <= u.2 <= 0x10000000000i64
            &&& -0x10000000000000i64 <= u.0 <= 0x10000000000000i64
            &&& -0x10000000000000i64 <= u.1 <= 0x10000000000000i64
        }),
{
    let ax = t2.x - t0.x;
    let bx = t1.x - t0.x;
    let cx = t0.x - px;
    let ay = t2.y - t0.y;
    let by = t1.y - t0.y;
    let cy = t0.y - py;
    lemma_mul_bound(ax, by, 200000, 200000);
    lemma_mul_bound(bx, ay, 200000, 200000);
    lemma_mul_bound(bx, cy, 200000, 2147583648);
    lemma_mul_bound(cx, by, 2147583648, 200000);
    lemma_mul_bound(cx, ay, 2147583648, 200000);
    lemma_mul_bound(ax, cy, 200000, 2147583648);
    assert(200000int * 200000 == 40000000000) by (nonlinear_arith);
    assert(200000int * 2147583648 == 429516729600000) by (nonlinear_arith);
    assert(2147583648int * 200000 == 429516729600000) by (nonlinear_arith);
}

/// The three barycentric numerators always sum to the denominator: the
/// weights sum exactly to one. With the point inside, each weight is also
/// nonnegative, and the denominator nonzero.
pub proof fn lemma_barycentric_weights(t0: Vec3i, t1: Vec3i, t2: Vec3i, px: int, py: int)
    requires
        tri_ok(t0, t1, t2),
        i32::MIN <= px <= i32::MAX,
        i32::MIN <= py <= i32::MAX,
    ensures
        ({
            let b = spec_barycentric(t0, t1, t2, px, py);
            &&& b.num0 + b.num1 + b.num2 == b.den
            &&& b.den != 0
            &&& (bary_inside(b) ==> b.num0 * b.den >= 0 && b.num1 * b.den >= 0 && b.num2 * b.den
                >= 0)
        }),
{
    lemma_bary_cross_bounds(t0, t1, t2, px, py);
    let b = spec_barycentric(t0, t1, t2, px, py);
    if bary_inside(b) {
        assert(b.num0 * b.den >= 0 && b.num1 * b.den >= 0 && b.num2 * b.den >= 0)
            by (nonlinear_arith)
            requires
                b.den != 0,
                bary_inside(b),
        ;
    }
}

/// The smallest of three integers.
pub open spec fn min3(a: int, b: int, c: int) -> int {
    vstd::math::min(vstd::math::min(a, b), c)
}

/// The largest of three integers.
pub open spec fn max3(a: int, b: int, c: int) -> int {
    vstd::math::max(vstd::math::max(a, b), c)
}

/// The first column of the triangle's clamped bounding box.
pub open spec fn bbox_lo_x(t0: Vec3i, t1: Vec3i, t2: Vec3i) -> int {
    vstd::math::max(min3(t0.x as int, t1.x as int, t2.x as int), 0)
}

/// The last column of the triangle's clamped bounding box.
pub open spec fn bbox_hi_x(s: RenderState, t0: Vec3i, t1: Vec3i, t2: Vec3i) -> int {
    vstd::math::min(max3(t0.x as int, t1.x as int, t2.x as int), s.width - 1)
}

/// The first row of the triangle's clamped bounding box.
pub open spec fn bbox_lo_y(t0: Vec3i, t1: Vec3i, t2: Vec3i) -> int {
    vstd::math::max(min3(t0.y as int, t1.y as int, t2.y as int), 0)
}

/// The last row of the triangle's clamped bounding box.
pub open spec fn bbox_hi_y(s: RenderState, t0: Vec3i, t1: Vec3i, t2: Vec3i) -> int {
    vstd::math::min(max3(t0.y as int, t1.y as int, t2.y as int), s.height - 1)
}

/// Whether pixel (x, y) lies in the triangle's bounding box, clamped to the
/// buffer: x between the smallest vertex x (at least 0) and the largest
/// vertex x (at most width - 1), and likewise for y.
pub open spec fn tri_in_bbox(
    s: RenderState,
    t0: Vec3i,
    t1: Vec3i,
    t2: Vec3i,
    x: int,
    y: int,
) -> bool {
    &&& bbox_lo_x(t0, t1, t2) <= x <= bbox_hi_x(s, t0, t1, t2)
    &&& bbox_lo_y(t0, t1, t2) <= y <= bbox_hi_y(s, t0, t1, t2)
}

/// The depth of pixel (x, y) in the triangle: the vertex z values blended
/// with the pixel's barycentric weights, with the quotient truncated toward
/// zero.
pub open spec fn tri_depth(t0: Vec3i, t1: Vec3i, t2: Vec3i, x: int, y: int) -> int {
    let b = spec_barycentric(t0, t1, t2, x, y);
    trunc_div(b.num0 * t0.z + b.num1 * t1.z + b.num2 * t2.z, b.den as int)
}

/// Whether `draw_triangle` colors pixel (x, y): it lies in the clamped
/// bounding box, its barycentric weights are all nonnegative, and its
/// interpolated depth strictly beats the stored depth.
pub open spec fn tri_cond(
    s: RenderState,
    t0: Vec3i,
    t1: Vec3i,
    t2: Vec3i,
    x: int,
    y: int,
) -> bool {
    &&& tri_in_bbox(s, t0, t1, t2, x, y)
    &&& bary_inside(spec_barycentric(t0, t1, t2, x, y))
    &&& s.depth[y * s.width + x] < tri_depth(t0, t1, t2, x, y)
}

/// The state after rasterizing the filled triangle (t0, t1, t2) with an
/// arbitrary per-pixel color rule: every pixel the condition selects takes
/// its rule's color and its interpolated depth; every other cell is
/// unchanged. The color buffer row of a pixel follows the y-flip; the depth
/// buffer is always indexed unflipped.
pub open spec fn spec_draw_tri_with(
    s: RenderState,
    t0: Vec3i,
    t1: Vec3i,
    t2: Vec3i,
    colf: spec_fn(int, int) -> Color,
) -> RenderState {
    RenderState {
        pixels: Seq::new(
            s.pixels.len(),
            |i: int|
                {
                    let x = i % s.width;
                    let y = flip_row(s, i / s.width);
                    if tri_cond(s, t0, t1, t2, x, y) {
                        colf(x, y)
                    } else {
                        s.pixels[i]
                    }
                },
        ),
        depth: Seq::new(
            s.depth.len(),
            |i: int|
                {
                    let x = i % s.width;
                    let y = i / s.width;
                    if tri_cond(s, t0, t1, t2, x, y) {
                        tri_depth(t0, t1, t2, x, y)
                    } else {
                        s.depth[i]
                    }
                },
        ),
        ..s
    }
}

/// The state after rasterizing the filled triangle (t0, t1, t2) in one flat
/// color.
pub open spec fn spec_draw_triangle(
    s: RenderState,
    t0: Vec3i,
    t1: Vec3i,
    t2: Vec3i,
    color: Color,
) -> RenderState {
    spec_draw_tri_with(s, t0, t1, t2, |x: int, y: int| color)
}

/// A row-major index splits back into its row and column.
proof fn lemma_index_roundtrip(w: int, h: int, x: int, row: int)
    requires
        0 <= x < w,
        0 <= row < h,
    ensures
        (row * w + x) / w == row,
        (row * w + x) % w == x,
        0 <= row * w + x < w * h,
{
    lemma_row_major_bound(x, row, w, h);
    vstd::arithmetic::div_mod::lemma_fundamental_div_mod_converse(row * w + x, w, row, x);
}

/// A weighted blend with nonnegative weights summing to one stays within
/// the bounds of its inputs: the interpolated depth lies between the
/// smallest and largest vertex depth.
proof fn lemma_blend_bound(b: Barycentric, z0: int, z1: int, z2: int, limit: int)
    requires
        bary_inside(b),
        b.num0 + b.num1 + b.num2 == b.den,
        b.den != 0,
        -limit <= z0 <= limit,
        -limit <= z1 <= limit,
        -limit <= z2 <= limit,
        0 <= limit,
    ensures
        -limit <= trunc_div(b.num0 * z0 + b.num1 * z1 + b.num2 * z2, b.den as int) <= limit,
{
    let n0 = b.num0 as int;
    let n1 = b.num1 as int;
    let n2 = b.num2 as int;
    let d = b.den as int;
    let znum = n0 * z0 + n1 * z1 + n2 * z2;
    let ad = vstd::math::abs(d) as int;
    assert(vstd::math::abs(znum) <= ad * limit) by (nonlinear_arith)
        requires
            bary_inside(b),
            n0 == b.num0 && n1 == b.num1 && n2 == b.num2 && d == b.den,
            n0 + n1 + n2 == d,
            d != 0,
            -limit <= z0 <= limit,
            -limit <= z1 <= limit,
            -limit <= z2 <= limit,
            0 <= limit,
            znum == n0 * z0 + n1 * z1 + n2 * z2,
            ad == vstd::math::abs(d),
    ;
    let q = vstd::math::abs(znum) as int / ad;
    vstd::arithmetic::div_mod::lemma_div_is_ordered(vstd::math::abs(znum) as int, ad * limit, ad);
    vstd::arithmetic::div_mod::lemma_div_multiples_vanish(limit, ad);
    assert(q <= limit);
}

/// Whether the raster scan of the bounding box, column by column and top of
/// column first, has already visited pixel (x, y) when it stands at column
/// `xb`, row `yb`.
pub open spec fn tri_scanned(x: int, y: int, xb: int, yb: int) -> bool {
    x < xb || (x == xb && y < yb)
}

/// The state partway through rasterizing a triangle: every selected pixel
/// the scan has visited holds the new color and depth; all later cells still
/// hold their original values.
pub open spec fn tri_partial(
    s: RenderState,
    t0: Vec3i,
    t1: Vec3i,
    t2: Vec3i,
    colf: spec_fn(int, int) -> Color,
    xb: int,
    yb: int,
) -> RenderState {
    RenderState {
        pixels: Seq::new(
            s.pixels.len(),
            |i: int|
                {
                    let x = i % s.width;
                    let y = flip_row(s, i / s.width);
                    if tri_cond(s, t0, t1, t2, x, y) && tri_scanned(x, y, xb, yb) {
                        colf(x, y)
                    } else {
                        s.pixels[i]
                    }
                },
        ),
        depth: Seq::new(
            s.depth.len(),
            |i: int|
                {
                    let x = i % s.width;
                    let y = i / s.width;
                    if tri_cond(s, t0, t1, t2, x, y) && tri_scanned(x, y, xb, yb) {
                        tri_depth(t0, t1, t2, x, y)
                    } else {
                        s.depth[i]
                    }
                },
        ),
        ..s
    }
}

/// Before the scan has visited anything, the partial state is the original
/// state.
proof fn lemma_tri_partial_start(
    s: RenderState,
    t0: Vec3i,
    t1: Vec3i,
    t2: Vec3i,
    colf: spec_fn(int, int) -> Color,
)
    requires
        s.wf(),
    ensures
        tri_partial(s, t0, t1, t2, colf, bbox_lo_x(t0, t1, t2), bbox_lo_y(t0, t1, t2)) == s,
{
    let p = tri_partial(s, t0, t1, t2, colf, bbox_lo_x(t0, t1, t2), bbox_lo_y(t0, t1, t2));
    assert forall|i: int| 0 <= i < s.pixels.len() implies p.pixels[i] == s.pixels[i] by {
        assert(!tri_scanned(i % s.width, flip_row(s, i / s.width), bbox_lo_x(t0, t1, t2), bbox_lo_y(t0, t1, t2))
            || !tri_cond(s, t0, t1, t2, i % s.width, flip_row(s, i / s.width)));
    }
    assert forall|i: int| 0 <= i < s.depth.len() implies p.depth[i] == s.depth[i] by {
        assert(!tri_scanned(i % s.width, i / s.width, bbox_lo_x(t0, t1, t2), bbox_lo_y(t0, t1, t2))
            || !tri_cond(s, t0, t1, t2, i % s.width, i / s.width));
    }
    assert(p.pixels =~= s.pixels);
    assert(p.depth =~= s.depth);
    assert(p =~= s);
}

/// When the scan leaves a column, the partial state equals the one at the
/// top of the next column.
proof fn lemma_tri_partial_column(
    s: RenderState,
    t0: Vec3i,
    t1: Vec3i,
    t2: Vec3i,
    colf: spec_fn(int, int) -> Color,
    xb: int,
)
    requires
        s.wf(),
    ensures
        tri_partial(s, t0, t1, t2, colf, xb, bbox_hi_y(s, t0, t1, t2) + 1) == tri_partial(
            s,
            t0,
            t1,
            t2,
            colf,
            xb + 1,
            bbox_lo_y(t0, t1, t2),
        ),
{
    let a = tri_partial(s, t0, t1, t2, colf, xb, bbox_hi_y(s, t0, t1, t2) + 1);
    let b = tri_partial(s, t0, t1, t2, colf, xb + 1, bbox_lo_y(t0, t1, t2));
    assert forall|x: int, y: int| tri_cond(s, t0, t1, t2, x, y) implies tri_scanned(
        x,
        y,
        xb,
        bbox_hi_y(s, t0, t1, t2) + 1,
    ) == tri_scanned(x, y, xb + 1, bbox_lo_y(t0, t1, t2)) by {}
    assert(a.pixels =~= b.pixels);
    assert(a.depth =~= b.depth);
    assert(a =~= b);
}

/// When the scan has passed the last column, the partial state is the fully
/// rasterized triangle.
proof fn lemma_tri_partial_end(
    s: RenderState,
    t0: Vec3i,
    t1: Vec3i,
    t2: Vec3i,
    colf: spec_fn(int, int) -> Color,
)
    requires
        s.wf(),
    ensures
        tri_partial(s, t0, t1, t2, colf, bbox_hi_x(s, t0, t1, t2) + 1, bbox_lo_y(t0, t1, t2))
            == spec_draw_tri_with(s, t0, t1, t2, colf),
{
    let a = tri_partial(s, t0, t1, t2, colf, bbox_hi_x(s, t0, t1, t2) + 1, bbox_lo_y(t0, t1, t2));
    let b = spec_draw_tri_with(s, t0, t1, t2, colf);
    assert forall|x: int, y: int| tri_cond(s, t0, t1, t2, x, y) implies tri_scanned(
        x,
        y,
        bbox_hi_x(s, t0, t1, t2) + 1,
        bbox_lo_y(t0, t1, t2),
    ) by {}
    assert(a.pixels =~= b.pixels);
    assert(a.depth =~= b.depth);
    assert(a =~= b);
}

/// An index into a row-major w-by-h buffer splits into a column below w and
/// a row below h.
proof fn lemma_split_index(w: int, h: int, i: int)
    requires
        1 <= w,
        0 <= i < w * h,
    ensures
        0 <= i % w < w,
        0 <= i / w < h,
        i == (i / w) * w + i % w,
{
    vstd::arithmetic::div_mod::lemma_fundamental_div_mod(i, w);
    assert(0 <= i % w < w) by (nonlinear_arith)
        requires
            1 <= w,
            0 <= i,
    ;
    assert(0 <= i / w) by (nonlinear_arith)
        requires
            1 <= w,
            0 <= i,
    ;
    assert(i / w < h) by (nonlinear_arith)
        requires
            1 <= w,
            0 <= i < w * h,
            i == w * (i / w) + i % w,
            0 <= i % w < w,
    ;
}

/// Advancing the scan by one pixel: if the pixel is not selected the partial
/// state is unchanged; if it is, exactly its color cell and its depth cell
/// are written.
proof fn lemma_tri_partial_step(
    s: RenderState,
    t0: Vec3i,
    t1: Vec3i,
    t2: Vec3i,
    colf: spec_fn(int, int) -> Color,
    x: int,
    y: int,
)
    requires
        s.wf(),
        0 <= x < s.width,
        0 <= y < s.height,
    ensures
        !tri_cond(s, t0, t1, t2, x, y) ==> tri_partial(s, t0, t1, t2, colf, x, y + 1)
            == tri_partial(s, t0, t1, t2, colf, x, y),
        tri_cond(s, t0, t1, t2, x, y) ==> tri_partial(s, t0, t1, t2, colf, x, y + 1)
            == (RenderState {
            pixels: tri_partial(s, t0, t1, t2, colf, x, y).pixels.update(
                pix_index(s, x, y),
                colf(x, y),
            ),
            depth: tri_partial(s, t0, t1, t2, colf, x, y).depth.update(
                y * s.width + x,
                tri_depth(t0, t1, t2, x, y),
            ),
            ..tri_partial(s, t0, t1, t2, colf, x, y)
        }),
{
    let w = s.width;
    let h = s.height;
    let p1 = tri_partial(s, t0, t1, t2, colf, x, y);
    let p2 = tri_partial(s, t0, t1, t2, colf, x, y + 1);
    let pidx = pix_index(s, x, y);
    let didx = y * w + x;
    lemma_index_roundtrip(w, h, x, flip_row(s, y));
    lemma_index_roundtrip(w, h, x, y);
    if !tri_cond(s, t0, t1, t2, x, y) {
        assert forall|i: int| 0 <= i < s.pixels.len() implies p2.pixels[i] == p1.pixels[i] by {
            lemma_split_index(w, h, i);
        }
        assert forall|i: int| 0 <= i < s.depth.len() implies p2.depth[i] == p1.depth[i] by {
            lemma_split_index(w, h, i);
        }
        assert(p2.pixels =~= p1.pixels);
        assert(p2.depth =~= p1.depth);
        assert(p2 =~= p1);
    } else {
        let q = RenderState {
            pixels: p1.pixels.update(pidx, colf(x, y)),
            depth: p1.depth.update(didx, tri_depth(t0, t1, t2, x, y)),
            ..p1
        };
        assert forall|i: int| 0 <= i < s.pixels.len() implies p2.pixels[i] == q.pixels[i] by {
            lemma_split_index(w, h, i);
            if i == pidx {
                assert(flip_row(s, i / w) == y);
            } else {
                if i % w == x && flip_row(s, i / w) == y {
                    assert(i / w == flip_row(s, y));
                    assert(i == pidx);
                }
            }
        }
        assert forall|i: int| 0 <= i < s.depth.len() implies p2.depth[i] == q.depth[i] by {
            lemma_split_index(w, h, i);
            if i != didx && i % w == x && i / w == y {
                assert(i == didx);
            }
        }
        assert(p2.pixels =~= q.pixels);
        assert(p2.depth =~= q.depth);
        assert(p2 =~= q);
    }
}

/// The depth test is strict: rasterizing the same triangle again, whatever
/// the new flat color, changes nothing — every selected pixel now holds
/// exactly the depth a new pixel would need to beat, so ties keep the first
/// color.
pub proof fn lemma_depth_test_keeps_first(
    s: RenderState,
    t0: Vec3i,
    t1: Vec3i,
    t2: Vec3i,
    c1: Color,
    c2: Color,
)
    requires
        s.wf(),
    ensures
        spec_draw_triangle(spec_draw_triangle(s, t0, t1, t2, c1), t0, t1, t2, c2)
            == spec_draw_triangle(s, t0, t1, t2, c1),
{
    let s1 = spec_draw_triangle(s, t0, t1, t2, c1);
    let s2 = spec_draw_triangle(s1, t0, t1, t2, c2);
    assert forall|x: int, y: int| !tri_cond(s1, t0, t1, t2, x, y) by {
        if tri_cond(s1, t0, t1, t2, x, y) {
            let idx = y * s.width + x;
            lemma_index_roundtrip(s.width, s.height, x, y);
            assert(s1.depth[idx] == (if tri_cond(s, t0, t1, t2, x, y) {
                tri_depth(t0, t1, t2, x, y)
            } else {
                s.depth[idx]
            }));
        }
    }
    assert forall|i: int| 0 <= i < s1.pixels.len() implies s2.pixels[i] == s1.pixels[i] by {}
    assert forall|i: int| 0 <= i < s1.depth.len() implies s2.depth[i] == s1.depth[i] by {}
    assert(s2.pixels =~= s1.pixels);
    assert(s2.depth =~= s1.depth);
    assert(s2 =~= s1);
}

/// The UV coordinate of pixel (x, y) in the triangle: the vertex UVs
/// blended with the pixel's barycentric weights, each quotient truncated
/// toward zero.
pub open spec fn tri_interp_uv(
    t0: Vec3i,
    t1: Vec3i,
    t2: Vec3i,
    uv0: Vec2u,
    uv1: Vec2u,
    uv2: Vec2u,
    x: int,
    y: int,
) -> (int, int) {
    let b = spec_barycentric(t0, t1, t2, x, y);
    (
        trunc_div(b.num0 * uv0.x + b.num1 * uv1.x + b.num2 * uv2.x, b.den as int),
        trunc_div(b.num0 * uv0.y + b.num1 * uv1.y + b.num2 * uv2.y, b.den as int),
    )
}

/// The color the textured triangle writes at pixel (x, y): the texture
/// sampled at the interpolated UV, its r, g and b channels scaled by
/// `intensity / UV_ONE` with truncation, alpha kept.
pub open spec fn tri_uv_color(
    t0: Vec3i,
    t1: Vec3i,
    t2: Vec3i,
    uv0: Vec2u,
    uv1: Vec2u,
    uv2: Vec2u,
    tex: Texture,
    intensity: u32,
    x: int,
    y: int,
) -> Color {
    let uv = tri_interp_uv(t0, t1, t2, uv0, uv1, uv2, x, y);
    let c = tex.pixels@[uv_to_texel(uv.1, tex.height as int) * tex.width + uv_to_texel(
        uv.0,
        tex.width as int,
    )];
    Color {
        r: (c.r * intensity / (UV_ONE as int)) as u8,
        g: (c.g * intensity / (UV_ONE as int)) as u8,
        b: (c.b * intensity / (UV_ONE as int)) as u8,
        a: c.a,
    }
}

/// The state after rasterizing the textured triangle (t0, t1, t2): the same
/// pixels and depths as the flat variant, but each selected pixel takes its
/// sampled, intensity-scaled texture color.
pub open spec fn spec_draw_triangle_uv(
    s: RenderState,
    t0: Vec3i,
    t1: Vec3i,
    t2: Vec3i,
    uv0: Vec2u,
    uv1: Vec2u,
    uv2: Vec2u,
    tex: Texture,
    intensity: u32,
) -> RenderState {
    spec_draw_tri_with(
        s,
        t0,
        t1,
        t2,
        |x: int, y: int| tri_uv_color(t0, t1, t2, uv0, uv1, uv2, tex, intensity, x, y),
    )
}

/// A weighted blend of nonnegative values with nonnegative weights summing
/// to one is nonnegative.
proof fn lemma_blend_nonneg(b: Barycentric, z0: int, z1: int, z2: int)
    requires
        bary_inside(b),
        b.num0 + b.num1 + b.num2 == b.den,
        b.den != 0,
        0 <= z0,
        0 <= z1,
        0 <= z2,
    ensures
        0 <= trunc_div(b.num0 * z0 + b.num1 * z1 + b.num2 * z2, b.den as int),
{
    let znum = b.num0 * z0 + b.num1 * z1 + b.num2 * z2;
    assert((b.den > 0 ==> znum >= 0) && (b.den < 0 ==> znum <= 0)) by (nonlinear_arith)
        requires
            bary_inside(b),
            0 <= z0,
            0 <= z1,
            0 <= z2,
            znum == b.num0 * z0 + b.num1 * z1 + b.num2 * z2,
    ;
}

/// The rasterizer's render target: a color buffer and a depth buffer at a
/// fixed size, with an optional y-axis flip applied to every pixel write.
pub struct Renderer {
    width: u32,
    height: u32,
    flip_y: bool,
    pixels: Vec<Color>,
    y_buffer: Vec<i32>,
}

impl View for Renderer {
    type V = RenderState;

    closed spec fn view(&self) -> RenderState {
        RenderState {
            width: self.width as int,
            height: self.height as int,
            flip_y: self.flip_y,
            pixels: self.pixels@,
            depth: self.y_buffer@.map_values(|d: i32| d as int),
        }
    }
}

impl Renderer {
    /// A renderer with every pixel white and the depth buffer cleared.
    /// When `flip_y` is set, pixel writes flip the y axis, reconciling a
    /// bottom-left-origin model space with the top-left-origin buffer.
    pub fn new(width: u32, height: u32, flip_y: bool) -> (r: Renderer)
        requires
            width * height <= u32::MAX,
        ensures
            r@.wf(),
            r@.width == width,
            r@.height == height,
            r@.flip_y == flip_y,
            forall|i: int|
                0 <= i < r@.pixels.len() ==> r@.pixels[i] == (Color {
                    r: 255u8,
                    g: 255u8,
                    b: 255u8,
                    a: 255u8,
                }),
            forall|i: int| 0 <= i < r@.depth.len() ==> r@.depth[i] == DEPTH_CLEAR,
    {
        let n = (width as u64 * height as u64) as usize;
        let mut pixels: Vec<Color> = Vec::new();
        let mut y_buffer: Vec<i32> = Vec::new();
        let mut i: usize = 0;
        while i < n
            invariant
                i <= n,
                pixels@.len() == i,
                y_buffer@.len() == i,
                forall|k: int|
                    0 <= k < i ==> pixels@[k] == (Color {
                        r: 255u8,
                        g: 255u8,
                        b: 255u8,
                        a: 255u8,
                    }),
                forall|k: int| 0 <= k < i ==> y_buffer@[k] == DEPTH_CLEAR,
            decreases n - i,
        {
            pixels.push(Color::white());
            y_buffer.push(DEPTH_CLEAR);
            i = i + 1;
        }
        Renderer { width, height, flip_y, pixels, y_buffer }
    }

    /// The buffer width in pixels.
    pub fn width(&self) -> (r: u32)
        ensures
            r == self@.width,
    {
        self.width
    }

    /// The buffer height in pixels.
    pub fn height(&self) -> (r: u32)
        ensures
            r == self@.height,
    {
        self.height
    }

    /// The live color buffer, row-major.
    pub fn pixels(&self) -> (r: &Vec<Color>)
        ensures
            r@ == self@.pixels,
    {
        &self.pixels
    }

    /// The color buffer serialized as bytes: four bytes r, g, b, a per pixel
    /// in buffer order, with no padding.
    pub fn rgba_bytes(&self) -> (r: Vec<u8>)
        ensures
            r@.len() == 4 * self@.pixels.len(),
            forall|i: int|
                0 <= i < self@.pixels.len() ==> {
                    &&& r@[4 * i] == self@.pixels[i].r
                    &&& r@[4 * i + 1] == self@.pixels[i].g
                    &&& r@[4 * i + 2] == self@.pixels[i].b
                    &&& r@[4 * i + 3] == self@.pixels[i].a
                },
    {
        let mut out: Vec<u8> = Vec::new();
        let mut i: usize = 0;
        let n = self.pixels.len();
        while i < n
            invariant
                i <= n,
                n == self@.pixels.len(),
                self@.pixels == self.pixels@,
                out@.len() == 4 * i,
                forall|k: int|
                    0 <= k < i ==> {
                        &&& out@[4 * k] == self@.pixels[k].r
                        &&& out@[4 * k + 1] == self@.pixels[k].g
                        &&& out@[4 * k + 2] == self@.pixels[k].b
                        &&& out@[4 * k + 3] == self@.pixels[k].a
                    },
            decreases n - i,
        {
            let c = self.pixels[i];
            out.push(c.r);
            out.push(c.g);
            out.push(c.b);
            out.push(c.a);
            i = i + 1;
        }
        out
    }

    /// Writes `color` at pixel (x, y); out-of-range writes are dropped.
    pub fn draw_pixel(&mut self, x: u32, y: u32, color: Color)
        requires
            old(self)@.wf(),
        ensures
            final(self)@.wf(),
            final(self)@ == spec_draw_pixel(old(self)@, x as int, y as int, color),
    {
        if x >= self.width || y >= self.height {
            return ;
        }
        let fy: u32 = if self.flip_y {
            self.height - y - 1
        } else {
            y
        };
        proof {
            lemma_row_major_bound(x as int, fy as int, self.width as int, self.height as int);
        }
        let idx = (fy as u64 * self.width as u64 + x as u64) as usize;
        self.pixels[idx] = color;
        proof {
            assert(self@.pixels =~= spec_draw_pixel(old(self)@, x as int, y as int, color).pixels);
            assert(self@.depth =~= old(self)@.depth);
        }
    }

    /// Sets every pixel to `color` and resets every depth cell to
    /// [`DEPTH_CLEAR`], starting a new frame.
    pub fn clear(&mut self, color: Color)
        requires
            old(self)@.wf(),
        ensures
            final(self)@.wf(),
            final(self)@.width == old(self)@.width,
            final(self)@.height == old(self)@.height,
            final(self)@.flip_y == old(self)@.flip_y,
            forall|i: int| 0 <= i < final(self)@.pixels.len() ==> final(self)@.pixels[i] == color,
            forall|i: int| 0 <= i < final(self)@.depth.len() ==> final(self)@.depth[i] == DEPTH_CLEAR,
    {
        let n = self.pixels.len();
        let mut pixels: Vec<Color> = Vec::new();
        let mut y_buffer: Vec<i32> = Vec::new();
        let mut i: usize = 0;
        while i < n
            invariant
                i <= n,
                pixels@.len() == i,
                y_buffer@.len() == i,
                forall|k: int| 0 <= k < i ==> pixels@[k] == color,
                forall|k: int| 0 <= k < i ==> y_buffer@[k] == DEPTH_CLEAR,
            decreases n - i,
        {
            pixels.push(color);
            y_buffer.push(DEPTH_CLEAR);
            i = i + 1;
        }
        self.pixels = pixels;
        self.y_buffer = y_buffer;
    }

    /// The barycentric coordinates of `p` against the screen-space triangle
    /// (t0, t1, t2), computed exactly; only the x and y components are read.
    pub fn barycentric(t0: &Vec3i, t1: &Vec3i, t2: &Vec3i, p: &Vec3i) -> (r: Barycentric)
        requires
            tri_ok(*t0, *t1, *t2),
        ensures
            r == spec_barycentric(*t0, *t1, *t2, p.x as int, p.y as int),
    {
        proof {
            lemma_bary_cross_bounds(*t0, *t1, *t2, p.x as int, p.y as int);
        }
        let ax = t2.x as i64 - t0.x as i64;
        let bx = t1.x as i64 - t0.x as i64;
        let cx = t0.x as i64 - p.x as i64;
        let ay = t2.y as i64 - t0.y as i64;
        let by = t1.y as i64 - t0.y as i64;
        let cy = t0.y as i64 - p.y as i64;
        let ux = bx * cy - cx * by;
        let uy = cx * ay - ax * cy;
        let uz = ax * by - bx * ay;
        if uz != 0 {
            Barycentric { num0: uz - ux - uy, num1: uy, num2: ux, den: uz }
        } else {
            Barycentric { num0: -1, num1: 1, num2: 1, den: 1 }
        }
    }

    /// Rasterizes the filled triangle (t0, t1, t2) in flat `color`: every
    /// pixel of the clamped bounding box whose barycentric weights are all
    /// nonnegative and whose interpolated depth strictly beats the depth
    /// buffer is colored; depth ties keep the earlier pixel.
    pub fn draw_triangle(&mut self, t0: &Vec3i, t1: &Vec3i, t2: &Vec3i, color: Color)
        requires
            old(self)@.wf(),
            tri_ok(*t0, *t1, *t2),
        ensures
            final(self)@.wf(),
            final(self)@ == spec_draw_triangle(old(self)@, *t0, *t1, *t2, color),
    {
        let ghost s0 = self@;
        let ghost colf: spec_fn(int, int) -> Color = |px: int, py: int| color;
        let mut min_x = t0.x;
        if t1.x < min_x {
            min_x = t1.x;
        }
        if t2.x < min_x {
            min_x = t2.x;
        }
        let mut max_x = t0.x;
        if t1.x > max_x {
            max_x = t1.x;
        }
        if t2.x > max_x {
            max_x = t2.x;
        }
        let mut min_y = t0.y;
        if t1.y < min_y {
            min_y = t1.y;
        }
        if t2.y < min_y {
            min_y = t2.y;
        }
        let mut max_y = t0.y;
        if t1.y > max_y {
            max_y = t1.y;
        }
        if t2.y > max_y {
            max_y = t2.y;
        }
        let lo_x: i64 = if min_x < 0 {
            0
        } else {
            min_x as i64
        };
        let hi_x: i64 = if (max_x as i64) > self.width as i64 - 1 {
            self.width as i64 - 1
        } else {
            max_x as i64
        };
        let lo_y: i64 = if min_y < 0 {
            0
        } else {
            min_y as i64
        };
        let hi_y: i64 = if (max_y as i64) > self.height as i64 - 1 {
            self.height as i64 - 1
        } else {
            max_y as i64
        };
        proof {
            assert(lo_x == bbox_lo_x(*t0, *t1, *t2));
            assert(hi_x == bbox_hi_x(s0, *t0, *t1, *t2));
            assert(lo_y == bbox_lo_y(*t0, *t1, *t2));
            assert(hi_y == bbox_hi_y(s0, *t0, *t1, *t2));
            lemma_tri_partial_start(s0, *t0, *t1, *t2, colf);
        }
        if lo_x > hi_x || lo_y > hi_y {
            proof {
                let fin = spec_draw_triangle(s0, *t0, *t1, *t2, color);
                assert forall|i: int| 0 <= i < s0.pixels.len() implies fin.pixels[i]
                    == s0.pixels[i] by {}
                assert forall|i: int| 0 <= i < s0.depth.len() implies fin.depth[i]
                    == s0.depth[i] by {}
                assert(fin.pixels =~= s0.pixels);
                assert(fin.depth =~= s0.depth);
                assert(fin =~= s0);
            }
            return ;
        }
        let mut x: i64 = lo_x;
        while x <= hi_x
            invariant
                self@.wf(),
                s0.wf(),
                tri_ok(*t0, *t1, *t2),
                lo_x == bbox_lo_x(*t0, *t1, *t2),
                hi_x == bbox_hi_x(s0, *t0, *t1, *t2),
                lo_y == bbox_lo_y(*t0, *t1, *t2),
                hi_y == bbox_hi_y(s0, *t0, *t1, *t2),
                lo_x <= x <= hi_x + 1,
                lo_y <= hi_y,
                0 <= lo_x,
                hi_x < s0.width,
                0 <= lo_y,
                hi_y < s0.height,
                -100000 <= lo_x <= 100001,
                -100000 <= x <= 100001,
                -100000 <= hi_x <= 100000,
                -100000 <= lo_y <= 100001,
                -100000 <= hi_y <= 100000,
                forall|px: int, py: int| #[trigger] colf(px, py) == color,
                self@ == tri_partial(s0, *t0, *t1, *t2, colf, x as int, lo_y as int),
            decreases hi_x + 1 - x,
        {
            let mut y: i64 = lo_y;
            while y <= hi_y
                invariant
                    self@.wf(),
                    s0.wf(),
                    tri_ok(*t0, *t1, *t2),
                    lo_x == bbox_lo_x(*t0, *t1, *t2),
                    hi_x == bbox_hi_x(s0, *t0, *t1, *t2),
                    lo_y == bbox_lo_y(*t0, *t1, *t2),
                    hi_y == bbox_hi_y(s0, *t0, *t1, *t2),
                    lo_x <= x <= hi_x,
                    lo_y <= y <= hi_y + 1,
                    0 <= lo_x,
                    hi_x < s0.width,
                    0 <= lo_y,
                    hi_y < s0.height,
                    -100000 <= x <= 100000,
                    -100000 <= y <= 100001,
                    -100000 <= hi_y <= 100000,
                    forall|px: int, py: int| #[trigger] colf(px, py) == color,
                    self@ == tri_partial(s0, *t0, *t1, *t2, colf, x as int, y as int),
                decreases hi_y + 1 - y,
            {
                let p = Vec3i { x: x as i32, y: y as i32, z: 0 };
                let bc = Self::barycentric(t0, t1, t2, &p);
                proof {
                    lemma_barycentric_weights(*t0, *t1, *t2, x as int, y as int);
                    lemma_bary_cross_bounds(*t0, *t1, *t2, x as int, y as int);
                    lemma_tri_partial_step(s0, *t0, *t1, *t2, colf, x as int, y as int);
                    lemma_index_roundtrip(s0.width, s0.height, x as int, y as int);
                }
                if bc.is_inside() {
                    proof {
                        lemma_mul_bound(bc.num0 as int, t0.z as int, 0x10000000000, 100000);
                        lemma_mul_bound(bc.num1 as int, t1.z as int, 0x10000000000, 100000);
                        lemma_mul_bound(bc.num2 as int, t2.z as int, 0x10000000000, 100000);
                    }
                    let znum = bc.num0 * t0.z as i64 + bc.num1 * t1.z as i64 + bc.num2 * t2.z
                        as i64;
                    let z = trunc_div_i64(znum, bc.den);
                    proof {
                        lemma_blend_bound(bc, t0.z as int, t1.z as int, t2.z as int, 100000);
                        assert(z == tri_depth(*t0, *t1, *t2, x as int, y as int));
                    }
                    let didx = (y as u64 * self.width as u64 + x as u64) as usize;
                    let ghost gidx = (y as int) * s0.width + x as int;
                    let ghost pre = self@;
                    proof {
                        assert(didx as int == gidx);
                        assert(pre.depth[gidx] == s0.depth[gidx]);
                    }
                    if (self.y_buffer[didx] as i64) < z {
                        proof {
                            assert(tri_cond(s0, *t0, *t1, *t2, x as int, y as int));
                        }
                        self.y_buffer[didx] = z as i32;
                        proof {
                            assert forall|i: int| 0 <= i < pre.depth.len() implies self@.depth[i]
                                == pre.depth.update(gidx, z as int)[i] by {}
                            assert(self@.depth =~= pre.depth.update(gidx, z as int));
                            assert(self@.pixels == pre.pixels);
                            assert(self@.width == s0.width && self@.height == s0.height
                                && self@.flip_y == s0.flip_y);
                        }
                        self.draw_pixel(x as u32, y as u32, color);
                        proof {
                            let stepped = tri_partial(
                                s0,
                                *t0,
                                *t1,
                                *t2,
                                colf,
                                x as int,
                                y as int + 1,
                            );
                            assert(colf(x as int, y as int) == color);
                            assert(self@.pixels =~= pre.pixels.update(
                                pix_index(s0, x as int, y as int),
                                color,
                            ));
                            assert(self@.depth =~= pre.depth.update(
                                gidx,
                                tri_depth(*t0, *t1, *t2, x as int, y as int),
                            ));
                            assert(self@.pixels =~= stepped.pixels);
                            assert(self@.depth =~= stepped.depth);
                            assert(self@ =~= stepped);
                        }
                    } else {
                        proof {
                            assert(!tri_cond(s0, *t0, *t1, *t2, x as int, y as int));
                        }
                    }
                } else {
                    proof {
                        assert(!tri_cond(s0, *t0, *t1, *t2, x as int, y as int));
                    }
                }
                y = y + 1;
            }
            proof {
                lemma_tri_partial_column(s0, *t0, *t1, *t2, colf, x as int);
            }
            x = x + 1;
        }
        proof {
            lemma_tri_partial_end(s0, *t0, *t1, *t2, colf);
            assert(spec_draw_tri_with(s0, *t0, *t1, *t2, colf).pixels =~= spec_draw_triangle(
                s0,
                *t0,
                *t1,
                *t2,
                color,
            ).pixels);
            assert(spec_draw_tri_with(s0, *t0, *t1, *t2, colf).depth =~= spec_draw_triangle(
                s0,
                *t0,
                *t1,
                *t2,
                color,
            ).depth);
            assert(spec_draw_tri_with(s0, *t0, *t1, *t2, colf) =~= spec_draw_triangle(
                s0,
                *t0,
                *t1,
                *t2,
                color,
            ));
        }
    }

    /// Rasterizes the textured triangle (t0, t1, t2): like `draw_triangle`,
    /// but each selected pixel samples `texture` at the barycentric blend of
    /// the vertex UVs and scales the sample by `intensity / UV_ONE`.
    pub fn draw_triangle_uv(
        &mut self,
        t0: &Vec3i,
        t1: &Vec3i,
        t2: &Vec3i,
        uv0: &Vec2u,
        uv1: &Vec2u,
        uv2: &Vec2u,
        texture: &Texture,
        intensity: u32,
    )
        requires
            old(self)@.wf(),
            tri_ok(*t0, *t1, *t2),
            texture.wf(),
            uv0.x <= UV_ONE && uv0.y <= UV_ONE,
            uv1.x <= UV_ONE && uv1.y <= UV_ONE,
            uv2.x <= UV_ONE && uv2.y <= UV_ONE,
        ensures
            final(self)@.wf(),
            final(self)@ == spec_draw_triangle_uv(
                old(self)@,
                *t0,
                *t1,
                *t2,
                *uv0,
                *uv1,
                *uv2,
                *texture,
                intensity,
            ),
    {
        let ghost s0 = self@;
        let ghost colf: spec_fn(int, int) -> Color = |px: int, py: int|
            tri_uv_color(*t0, *t1, *t2, *uv0, *uv1, *uv2, *texture, intensity, px, py);
        let mut min_x = t0.x;
        if t1.x < min_x {
            min_x = t1.x;
        }
        if t2.x < min_x {
            min_x = t2.x;
        }
        let mut max_x = t0.x;
        if t1.x > max_x {
            max_x = t1.x;
        }
        if t2.x > max_x {
            max_x = t2.x;
        }
        let mut min_y = t0.y;
        if t1.y < min_y {
            min_y = t1.y;
        }
        if t2.y < min_y {
            min_y = t2.y;
        }
        let mut max_y = t0.y;
        if t1.y > max_y {
            max_y = t1.y;
        }
        if t2.y > max_y {
            max_y = t2.y;
        }
        let lo_x: i64 = if min_x < 0 {
            0
        } else {
            min_x as i64
        };
        let hi_x: i64 = if (max_x as i64) > self.width as i64 - 1 {
            self.width as i64 - 1
        } else {
            max_x as i64
        };
        let lo_y: i64 = if min_y < 0 {
            0
        } else {
            min_y as i64
        };
        let hi_y: i64 = if (max_y as i64) > self.height as i64 - 1 {
            self.height as i64 - 1
        } else {
            max_y as i64
        };
        proof {
            assert(lo_x == bbox_lo_x(*t0, *t1, *t2));
            assert(hi_x == bbox_hi_x(s0, *t0, *t1, *t2));
            assert(lo_y == bbox_lo_y(*t0, *t1, *t2));
            assert(hi_y == bbox_hi_y(s0, *t0, *t1, *t2));
            lemma_tri_partial_start(s0, *t0, *t1, *t2, colf);
        }
        if lo_x > hi_x || lo_y > hi_y {
            proof {
                let fin = spec_draw_triangle_uv(
                    s0,
                    *t0,
                    *t1,
                    *t2,
                    *uv0,
                    *uv1,
                    *uv2,
                    *texture,
                    intensity,
                );
                assert forall|i: int| 0 <= i < s0.pixels.len() implies fin.pixels[i]
                    == s0.pixels[i] by {}
                assert forall|i: int| 0 <= i < s0.depth.len() implies fin.depth[i]
                    == s0.depth[i] by {}
                assert(fin.pixels =~= s0.pixels);
                assert(fin.depth =~= s0.depth);
                assert(fin =~= s0);
            }
            return ;
        }
        let mut x: i64 = lo_x;
        while x <= hi_x
            invariant
                self@.wf(),
                s0.wf(),
                tri_ok(*t0, *t1, *t2),
                texture.wf(),
                uv0.x <= UV_ONE && uv0.y <= UV_ONE,
                uv1.x <= UV_ONE && uv1.y <= UV_ONE,
                uv2.x <= UV_ONE && uv2.y <= UV_ONE,
                lo_x == bbox_lo_x(*t0, *t1, *t2),
                hi_x == bbox_hi_x(s0, *t0, *t1, *t2),
                lo_y == bbox_lo_y(*t0, *t1, *t2),
                hi_y == bbox_hi_y(s0, *t0, *t1, *t2),
                lo_x <= x <= hi_x + 1,
                lo_y <= hi_y,
                0 <= lo_x,
                hi_x < s0.width,
                0 <= lo_y,
                hi_y < s0.height,
                -100000 <= lo_x <= 100001,
                -100000 <= x <= 100001,
                -100000 <= hi_x <= 100000,
                -100000 <= lo_y <= 100001,
                -100000 <= hi_y <= 100000,
                forall|px: int, py: int| #[trigger] colf(px, py) == tri_uv_color(
                    *t0,
                    *t1,
                    *t2,
                    *uv0,
                    *uv1,
                    *uv2,
                    *texture,
                    intensity,
                    px,
                    py,
                ),
                self@ == tri_partial(s0, *t0, *t1, *t2, colf, x as int, lo_y as int),
            decreases hi_x + 1 - x,
        {
            let mut y: i64 = lo_y;
            while y <= hi_y
                invariant
                    self@.wf(),
                    s0.wf(),
                    tri_ok(*t0, *t1, *t2),
                    texture.wf(),
                    uv0.x <= UV_ONE && uv0.y <= UV_ONE,
                    uv1.x <= UV_ONE && uv1.y <= UV_ONE,
                    uv2.x <= UV_ONE && uv2.y <= UV_ONE,
                    lo_x == bbox_lo_x(*t0, *t1, *t2),
                    hi_x == bbox_hi_x(s0, *t0, *t1, *t2),
                    lo_y == bbox_lo_y(*t0, *t1, *t2),
                    hi_y == bbox_hi_y(s0, *t0, *t1, *t2),
                    lo_x <= x <= hi_x,
                    lo_y <= y <= hi_y + 1,
                    0 <= lo_x,
                    hi_x < s0.width,
                    0 <= lo_y,
                    hi_y < s0.height,
                    -100000 <= x <= 100000,
                    -100000 <= y <= 100001,
                    -100000 <= hi_y <= 100000,
                    forall|px: int, py: int| #[trigger] colf(px, py) == tri_uv_color(
                        *t0,
                        *t1,
                        *t2,
                        *uv0,
                        *uv1,
                        *uv2,
                        *texture,
                        intensity,
                        px,
                        py,
                    ),
                    self@ == tri_partial(s0, *t0, *t1, *t2, colf, x as int, y as int),
                decreases hi_y + 1 - y,
            {
                let p = Vec3i { x: x as i32, y: y as i32, z: 0 };
                let bc = Self::barycentric(t0, t1, t2, &p);
                proof {
                    lemma_barycentric_weights(*t0, *t1, *t2, x as int, y as int);
                    lemma_bary_cross_bounds(*t0, *t1, *t2, x as int, y as int);
                    lemma_tri_partial_step(s0, *t0, *t1, *t2, colf, x as int, y as int);
                    lemma_index_roundtrip(s0.width, s0.height, x as int, y as int);
                }
                if bc.is_inside() {
                    proof {
                        lemma_mul_bound(bc.num0 as int, t0.z as int, 0x10000000000, 100000);
                        lemma_mul_bound(bc.num1 as int, t1.z as int, 0x10000000000, 100000);
                        lemma_mul_bound(bc.num2 as int, t2.z as int, 0x10000000000, 100000);
                        lemma_mul_bound(bc.num0 as int, uv0.x as int, 0x10000000000, 65536);
                        lemma_mul_bound(bc.num1 as int, uv1.x as int, 0x10000000000, 65536);
                        lemma_mul_bound(bc.num2 as int, uv2.x as int, 0x10000000000, 65536);
                        lemma_mul_bound(bc.num0 as int, uv0.y as int, 0x10000000000, 65536);
                        lemma_mul_bound(bc.num1 as int, uv1.y as int, 0x10000000000, 65536);
                        lemma_mul_bound(bc.num2 as int, uv2.y as int, 0x10000000000, 65536);
                    }
                    let znum = bc.num0 * t0.z as i64 + bc.num1 * t1.z as i64 + bc.num2 * t2.z
                        as i64;
                    let z = trunc_div_i64(znum, bc.den);
                    let unum = bc.num0 * uv0.x as i64 + bc.num1 * uv1.x as i64 + bc.num2 * uv2.x
                        as i64;
                    let iu = trunc_div_i64(unum, bc.den);
                    let vnum = bc.num0 * uv0.y as i64 + bc.num1 * uv1.y as i64 + bc.num2 * uv2.y
                        as i64;
                    let iv = trunc_div_i64(vnum, bc.den);
                    proof {
                        lemma_blend_bound(bc, t0.z as int, t1.z as int, t2.z as int, 100000);
                        lemma_blend_bound(bc, uv0.x as int, uv1.x as int, uv2.x as int, 65536);
                        lemma_blend_bound(bc, uv0.y as int, uv1.y as int, uv2.y as int, 65536);
                        lemma_blend_nonneg(bc, uv0.x as int, uv1.x as int, uv2.x as int);
                        lemma_blend_nonneg(bc, uv0.y as int, uv1.y as int, uv2.y as int);
                        lemma_index_roundtrip(s0.width, s0.height, x as int, y as int);
                    }
                    let uvp = Vec2u { x: iu as u32, y: iv as u32 };
                    let sample = texture.get_color(&uvp);
                    let lit = sample.scaled(intensity, UV_ONE);
                    proof {
                        assert(lit == tri_uv_color(
                            *t0,
                            *t1,
                            *t2,
                            *uv0,
                            *uv1,
                            *uv2,
                            *texture,
                            intensity,
                            x as int,
                            y as int,
                        ));
                    }
                    let didx = (y as u64 * self.width as u64 + x as u64) as usize;
                    let ghost gidx = (y as int) * s0.width + x as int;
                    let ghost pre = self@;
                    proof {
                        assert(didx as int == gidx);
                        assert(pre.depth[gidx] == s0.depth[gidx]);
                    }
                    if (self.y_buffer[didx] as i64) < z {
                        proof {
                            assert(tri_cond(s0, *t0, *t1, *t2, x as int, y as int));
                        }
                        self.y_buffer[didx] = z as i32;
                        proof {
                            assert forall|i: int| 0 <= i < pre.depth.len() implies self@.depth[i]
                                == pre.depth.update(gidx, z as int)[i] by {}
                            assert(self@.depth =~= pre.depth.update(gidx, z as int));
                            assert(self@.pixels == pre.pixels);
                            assert(self@.width == s0.width && self@.height == s0.height
                                && self@.flip_y == s0.flip_y);
                        }
                        self.draw_pixel(x as u32, y as u32, lit);
                        proof {
                            let stepped = tri_partial(
                                s0,
                                *t0,
                                *t1,
                                *t2,
                                colf,
                                x as int,
                                y as int + 1,
                            );
                            assert(colf(x as int, y as int) == lit);
                            assert(self@.pixels =~= pre.pixels.update(
                                pix_index(s0, x as int, y as int),
                                lit,
                            ));
                            assert(self@.depth =~= pre.depth.update(
                                gidx,
                                tri_depth(*t0, *t1, *t2, x as int, y as int),
                            ));
                            assert(self@.pixels =~= stepped.pixels);
                            assert(self@.depth =~= stepped.depth);
                            assert(self@ =~= stepped);
                        }
                    } else {
                        proof {
                            assert(!tri_cond(s0, *t0, *t1, *t2, x as int, y as int));
                        }
                    }
                } else {
                    proof {
                        assert(!tri_cond(s0, *t0, *t1, *t2, x as int, y as int));
                    }
                }
                y = y + 1;
            }
            proof {
                lemma_tri_partial_column(s0, *t0, *t1, *t2, colf, x as int);
            }
            x = x + 1;
        }
        proof {
            lemma_tri_partial_end(s0, *t0, *t1, *t2, colf);
            let fin = spec_draw_triangle_uv(
                s0,
                *t0,
                *t1,
                *t2,
                *uv0,
                *uv1,
                *uv2,
                *texture,
                intensity,
            );
            assert(spec_draw_tri_with(s0, *t0, *t1, *t2, colf).pixels =~= fin.pixels);
            assert(spec_draw_tri_with(s0, *t0, *t1, *t2, colf).depth =~= fin.depth);
            assert(spec_draw_tri_with(s0, *t0, *t1, *t2, colf) =~= fin);
        }
    }

    /// Draws the Bresenham line between `v0` and `v1`, inclusive of both
    /// endpoints, writing `color` through the same bounds-checked pixel
    /// write as `draw_pixel`.
    pub fn draw_line(&mut self, v0: &Vec2u, v1: &Vec2u, color: Color)
        requires
            old(self)@.wf(),
        ensures
            final(self)@.wf(),
            final(self)@ == spec_draw_points(
                old(self)@,
                line_points(v0.x as int, v0.y as int, v1.x as int, v1.y as int),
                color,
            ),
    {
        let ghost s0 = self@;
        let ghost full = line_points(v0.x as int, v0.y as int, v1.x as int, v1.y as int);
        let mut steep = false;
        let mut x0 = v0.x as i64;
        let mut x1 = v1.x as i64;
        let mut y0 = v0.y as i64;
        let mut y1 = v1.y as i64;
        let adx = if x0 - x1 < 0 {
            x1 - x0
        } else {
            x0 - x1
        };
        let ady = if y0 - y1 < 0 {
            y1 - y0
        } else {
            y0 - y1
        };
        if adx < ady {
            steep = true;
            let t = x0;
            x0 = y0;
            y0 = t;
            let t = x1;
            x1 = y1;
            y1 = t;
        }
        if x0 > x1 {
            let t = x0;
            x0 = x1;
            x1 = t;
            let t = y0;
            y0 = y1;
            y1 = t;
        }
        proof {
            assert(steep == line_steep(v0.x as int, v0.y as int, v1.x as int, v1.y as int));
            assert((x0 as int, y0 as int, x1 as int, y1 as int) == line_canon(
                v0.x as int,
                v0.y as int,
                v1.x as int,
                v1.y as int,
            ));
        }
        let dx = x1 - x0;
        let dy = y1 - y0;
        let derror2 = (if dy < 0 {
            0i64 - dy
        } else {
            dy
        }) * 2;
        let sy: i64 = if y1 > y0 {
            1
        } else {
            -1
        };
        let mut error2: i64 = 0;
        let mut y = y0;
        let mut x = x0;
        proof {
            assert(full == bres_walk(
                x as int,
                y as int,
                x1 as int,
                error2 as int,
                dx as int,
                derror2 as int,
                sy as int,
                steep,
            ));
        }
        while x <= x1
            invariant
                self@.wf(),
                0 <= x0,
                x0 <= x,
                dx == x1 - x0,
                0 <= dx,
                derror2 == 2 * (vstd::math::abs(y1 as int - y0 as int) as int),
                derror2 <= 2 * dx,
                sy == (if y1 > y0 { 1i64 } else { -1i64 }),
                -2 * dx <= error2 <= dx,
                0 <= y0 <= 0xffff_ffffi64,
                y0 - (x - x0) <= y <= y0 + (x - x0),
                x1 <= 0xffff_ffffi64,
                spec_draw_points(
                    self@,
                    bres_walk(
                        x as int,
                        y as int,
                        x1 as int,
                        error2 as int,
                        dx as int,
                        derror2 as int,
                        sy as int,
                        steep,
                    ),
                    color,
                ) == spec_draw_points(s0, full, color),
            decreases x1 + 1 - x,
        {
            let ghost rem = bres_walk(
                x as int,
                y as int,
                x1 as int,
                error2 as int,
                dx as int,
                derror2 as int,
                sy as int,
                steep,
            );
            let ghost pt: (int, int) = if steep {
                (y as int, x as int)
            } else {
                (x as int, y as int)
            };
            proof {
                assert(rem[0] == pt);
                assert(rem.drop_first() =~= (if error2 + derror2 > dx {
                    bres_walk(
                        x as int + 1,
                        y as int + sy as int,
                        x1 as int,
                        error2 as int + derror2 as int - 2 * dx as int,
                        dx as int,
                        derror2 as int,
                        sy as int,
                        steep,
                    )
                } else {
                    bres_walk(
                        x as int + 1,
                        y as int,
                        x1 as int,
                        error2 as int + derror2 as int,
                        dx as int,
                        derror2 as int,
                        sy as int,
                        steep,
                    )
                }));
            }
            let px = if steep {
                y
            } else {
                x
            };
            let py = if steep {
                x
            } else {
                y
            };
            if 0 <= px && px <= 0xffff_ffffi64 && 0 <= py && py <= 0xffff_ffffi64 {
                self.draw_pixel(px as u32, py as u32, color);
            } else {
                proof {
                    lemma_draw_pixel_out_of_u32(self@, pt.0, pt.1, color);
                }
            }
            error2 = error2 + derror2;
            if error2 > dx {
                y = y + sy;
                error2 = error2 - dx * 2;
            }
            x = x + 1;
        }
        proof {
            assert(bres_walk(
                x as int,
                y as int,
                x1 as int,
                error2 as int,
                dx as int,
                derror2 as int,
                sy as int,
                steep,
            ) =~= Seq::<(int, int)>::empty());
        }
    }
}

} // verus!
