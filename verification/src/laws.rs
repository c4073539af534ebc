//! Laws of the rasterizer: properties that hold of every input, stated
//! and proved over the same spec functions the pipeline's contracts use.

use vstd::prelude::*;
use crate::fx::{FX, tdiv, lemma_tdiv_remainder};
use crate::model::Material;
use crate::raster::{
    edge_fn, lemma_edge_sum, TriSetup, pixel_covered, pixel_a0, pixel_a1, pixel_a2, pixel_bary,
    tri_area2, pixel_z, pixel_denom, pixel_color, in_bbox, pix, raster_tri_color,
    raster_tri_depth, lemma_flat_bounds, lemma_pix_in_range, lemma_pix_decompose,
};
use crate::texture::Texture;

verus! {

/// Twice the signed area of the triangle `(a, b, c)`, by the shoelace
/// formula: positive for one winding, negative for the other.
pub open spec fn signed_area_x2(ax: int, ay: int, bx: int, by: int, cx: int, cy: int) -> int {
    ax * (by - cy) + bx * (cy - ay) + cx * (ay - by)
}

/// The edge function is antisymmetric in its last two points, and applied
/// to a triangle's three vertices it is twice the triangle's signed area.
pub proof fn lemma_edge_antisymmetry_and_area(
    ax: int,
    ay: int,
    bx: int,
    by: int,
    cx: int,
    cy: int,
)
    ensures
        edge_fn(ax, ay, bx, by, cx, cy) == -edge_fn(ax, ay, cx, cy, bx, by),
        edge_fn(ax, ay, bx, by, cx, cy) == signed_area_x2(ax, ay, bx, by, cx, cy),
{
    assert((bx - ax) * (cy - ay) - (by - ay) * (cx - ax) == -((cx - ax) * (by - ay) - (cy - ay) * (
    bx - ax))) by (nonlinear_arith);
    assert((bx - ax) * (cy - ay) - (by - ay) * (cx - ax) == ax * (by - cy) + bx * (cy - ay) + cx * (
    ay - by)) by (nonlinear_arith);
}

/// At a covered pixel the three unnormalized edge weights sum to exactly
/// the triangle's doubled area, and the three normalized barycentric
/// weights sum to one, within the rounding of three fixed-point
/// divisions: their sum lies in `(FX - 3, FX]`.
pub proof fn lemma_barycentric_sum(s: TriSetup, x: int, y: int)
    requires
        pixel_covered(s, x, y),
    ensures
        pixel_a0(s, x, y) + pixel_a1(s, x, y) + pixel_a2(s, x, y) == tri_area2(s),
        tri_area2(s) > 0,
        FX - 3 < pixel_bary(s, x, y).0 + pixel_bary(s, x, y).1 + pixel_bary(s, x, y).2 <= FX,
{
    lemma_edge_sum(
        s.v0.sx as int,
        s.v0.sy as int,
        s.v1.sx as int,
        s.v1.sy as int,
        s.v2.sx as int,
        s.v2.sy as int,
        crate::raster::px_center(x),
        crate::raster::px_center(y),
    );
    let area = tri_area2(s);
    let a0 = pixel_a0(s, x, y);
    let a1 = pixel_a1(s, x, y);
    let a2 = pixel_a2(s, x, y);
    let b0 = pixel_bary(s, x, y).0;
    let b1 = pixel_bary(s, x, y).1;
    let b2 = pixel_bary(s, x, y).2;
    assert(a0 * FX >= 0 && a1 * FX >= 0 && a2 * FX >= 0) by (nonlinear_arith)
        requires
            a0 > 0,
            a1 > 0,
            a2 > 0,
            FX > 0,
    ;
    lemma_tdiv_remainder(a0 * FX, area);
    lemma_tdiv_remainder(a1 * FX, area);
    lemma_tdiv_remainder(a2 * FX, area);
    let su = b0 + b1 + b2;
    assert(b0 * area + b1 * area + b2 * area == su * area) by (nonlinear_arith)
        requires
            su == b0 + b1 + b2,
    ;
    assert(a0 * FX + a1 * FX + a2 * FX == area * FX) by (nonlinear_arith)
        requires
            a0 + a1 + a2 == area,
    ;
    assert(0 <= area * FX - su * area < 3 * area);
    assert(area * FX - su * area == area * (FX - su)) by (nonlinear_arith);
    assert(0 <= FX - su < 3) by (nonlinear_arith)
        requires
            0 <= area * (FX - su),
            area * (FX - su) < 3 * area,
            area > 0,
    ;
}

/// Rasterizing the same triangle a second time changes nothing: every
/// pixel it covered now fails the strict depth test against its own
/// depth, so a repeat pass leaves both buffers identical — in particular,
/// drawing a triangle twice into a fresh depth buffer yields the same
/// color buffer as drawing it once.
pub proof fn lemma_raster_idempotent(
    s: TriSetup,
    mat: Material,
    w: int,
    h: int,
    fb0: Seq<crate::fx::Fx3>,
    db0: Seq<i64>,
)
    requires
        w > 0,
        h > 0,
        fb0.len() == w * h,
        db0.len() == w * h,
    ensures
        raster_tri_color(s, mat, w, h, raster_tri_color(s, mat, w, h, fb0, db0), raster_tri_depth(s, mat, w, h, fb0, db0))
            =~= raster_tri_color(s, mat, w, h, fb0, db0),
        raster_tri_depth(s, mat, w, h, raster_tri_color(s, mat, w, h, fb0, db0), raster_tri_depth(s, mat, w, h, fb0, db0))
            =~= raster_tri_depth(s, mat, w, h, fb0, db0),
{
    let fb1 = raster_tri_color(s, mat, w, h, fb0, db0);
    let db1 = raster_tri_depth(s, mat, w, h, fb0, db0);
    let fb2 = raster_tri_color(s, mat, w, h, fb1, db1);
    let db2 = raster_tri_depth(s, mat, w, h, fb1, db1);
    assert forall|i: int| #![trigger fb1[i]] 0 <= i < fb0.len() implies fb2[i] == fb1[i] && db2[i]
        == db1[i] by {
        lemma_flat_bounds(w, h, i);
    }
    assert(fb2 =~= fb1);
    assert(db2 =~= db1);
}

/// Occlusion is independent of draw order: where two triangles both cover
/// a pixel and both pass the depth test against the buffer they meet, the
/// one with the smaller device depth ends up visible there, whichever is
/// drawn first, and the depth buffer records its depth.
pub proof fn lemma_occlusion_order_independent(
    s1: TriSetup,
    s2: TriSetup,
    mat1: Material,
    mat2: Material,
    w: int,
    h: int,
    fb0: Seq<crate::fx::Fx3>,
    db0: Seq<i64>,
    x: int,
    y: int,
)
    requires
        w > 0,
        h > 0,
        fb0.len() == w * h,
        db0.len() == w * h,
        0 <= x < w,
        0 <= y < h,
        crate::raster::setup_wf(s1),
        crate::raster::setup_wf(s2),
        in_bbox(s1, w, h, x, y),
        in_bbox(s2, w, h, x, y),
        pixel_covered(s1, x, y),
        pixel_covered(s2, x, y),
        pixel_denom(s1, x, y) != 0,
        pixel_denom(s2, x, y) != 0,
        pixel_z(s1, x, y) < pixel_z(s2, x, y),
        pixel_z(s2, x, y) < db0[pix(w, x, y)],
    ensures
        ({
            let i = pix(w, x, y);
            let first_then_second_color = raster_tri_color(s2, mat2, w, h,
                raster_tri_color(s1, mat1, w, h, fb0, db0),
                raster_tri_depth(s1, mat1, w, h, fb0, db0));
            let second_then_first_color = raster_tri_color(s1, mat1, w, h,
                raster_tri_color(s2, mat2, w, h, fb0, db0),
                raster_tri_depth(s2, mat2, w, h, fb0, db0));
            let first_then_second_depth = raster_tri_depth(s2, mat2, w, h,
                raster_tri_color(s1, mat1, w, h, fb0, db0),
                raster_tri_depth(s1, mat1, w, h, fb0, db0));
            let second_then_first_depth = raster_tri_depth(s1, mat1, w, h,
                raster_tri_color(s2, mat2, w, h, fb0, db0),
                raster_tri_depth(s2, mat2, w, h, fb0, db0));
            first_then_second_color[i] == pixel_color(s1, mat1, x, y) && second_then_first_color[i]
                == pixel_color(s1, mat1, x, y) && first_then_second_depth[i] == pixel_z(s1, x, y) as i64
                && second_then_first_depth[i] == pixel_z(s1, x, y) as i64
        }),
{
    let i = pix(w, x, y);
    lemma_pix_in_range(w, h, x, y);
    lemma_pix_decompose(w, x, y);
    crate::raster::lemma_pixel_z_bounds(s1, x, y);
    crate::raster::lemma_pixel_z_bounds(s2, x, y);
    let fb1 = raster_tri_color(s1, mat1, w, h, fb0, db0);
    let db1 = raster_tri_depth(s1, mat1, w, h, fb0, db0);
    assert(db1[i] == pixel_z(s1, x, y) as i64);
    assert(fb1[i] == pixel_color(s1, mat1, x, y));
    assert(raster_tri_color(s2, mat2, w, h, fb1, db1)[i] == pixel_color(s1, mat1, x, y));
    assert(raster_tri_depth(s2, mat2, w, h, fb1, db1)[i] == pixel_z(s1, x, y) as i64);
    let fb2 = raster_tri_color(s2, mat2, w, h, fb0, db0);
    let db2 = raster_tri_depth(s2, mat2, w, h, fb0, db0);
    assert(db2[i] == pixel_z(s2, x, y) as i64);
    assert(raster_tri_color(s1, mat1, w, h, fb2, db2)[i] == pixel_color(s1, mat1, x, y));
    assert(raster_tri_depth(s1, mat1, w, h, fb2, db2)[i] == pixel_z(s1, x, y) as i64);
}

/// A one-texel texture round-trips: sampled anywhere, it gives back
/// exactly its stored color (in the fixed-point scale of the
/// byte-to-unit conversion), because all four taps read the one texel and
/// interpolating a value with itself is exact.
pub proof fn lemma_one_texel_round_trip(t: Texture, u: int, v: int)
    requires
        t.wf(),
        t.width == 1,
        t.height == 1,
    ensures
        t.sample_spec(u, v) == t.texel(0, 0),
{
    let c = t.texel(0, 0);
    assert(crate::texture::wrap_coord(u - tdiv(FX as int, 1), 1) == 0);
    assert(forall|a: int| crate::texture::wrap_coord(a, 1) == 0);
    assert(forall|a: int, b: int| #[trigger] crate::texture::lerp_fx(a, a, b) == a) by {
        assert forall|a: int, b: int| #[trigger] crate::texture::lerp_fx(a, a, b) == a by {
            assert(tdiv((a - a) * b, FX as int) == 0) by (nonlinear_arith);
        }
    }
    assert(crate::texture::lerp4(c, c, 0) == c);
}

} // verus!
