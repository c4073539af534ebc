//! The triangle rasterizer: projection, screen mapping, edge-function
//! coverage, perspective-correct interpolation, depth test and shading.
//!
//! Everything is fixed-point. Intermediate normalized-device and
//! interpolated values saturate into a wide guard band (`GUARD`, about a
//! million screens wide) instead of overflowing: geometry far outside the
//! frustum keeps its arithmetic defined, the way float overflow to
//! infinity keeps the reference arithmetic defined, and the bounding box
//! still rejects it.

use vstd::prelude::*;
use crate::fx::{
    FX, Fx2, Fx3, Fx4, Mat4Fx, tdiv, sdiv, spec_clamp, abs, div_fx, div_signed, clamp_i128,
    lemma_tdiv_ordered, lemma_tdiv_multiple, lemma_tdiv_shrinks,
};
use crate::model::{Vertex, Material, COORD_LIMIT};

verus! {

/// Saturation bound for normalized-device, depth and interpolated values.
pub const GUARD: i64 = 0x10_0000_0000;

/// Largest supported framebuffer side length, in pixels.
pub const MAX_DIM: usize = 0x8000;

/// Magnitude bound on screen-space coordinates: `(FX + GUARD) * MAX_DIM / 2`
/// rounded up to a power of two.
pub const SXY_LIMIT: i64 = 0x10_0000_0000_0000;

/// Magnitude bound on transformed normals.
pub const NRM_LIMIT: i64 = 0x4_0000_0000_0000;

/// Magnitude bound on reciprocal homogeneous coordinates: `FX * FX`.
pub const INVW_LIMIT: i64 = 0x1_0000_0000;

/// A vertex after projection: normalized device coordinates and the
/// reciprocal of the homogeneous w, kept for perspective correction.
#[derive(Clone, Copy, PartialEq, Eq, Structural, Debug)]
pub struct ProjVertex {
    pub x: i64,
    pub y: i64,
    pub z: i64,
    pub inv_w: i64,
}

/// Entry `(r, c)` of a matrix.
pub open spec fn mat_at(m: Mat4Fx, r: int, c: int) -> int
    recommends
        0 <= r < 4,
        0 <= c < 4,
{
    m.e[4 * r + c] as int
}

/// Every matrix entry within `COORD_LIMIT`.
pub open spec fn mat_wf(m: Mat4Fx) -> bool {
    forall|i: int| 0 <= i < 16 ==> -COORD_LIMIT <= #[trigger] m.e[i] <= COORD_LIMIT
}

/// Row `r` of `m` applied to the homogeneous point `(x, y, z, 1)`;
/// the result carries scale `FX * FX`.
pub open spec fn mat_row_apply(m: Mat4Fx, r: int, x: int, y: int, z: int) -> int
    recommends
        0 <= r < 4,
{
    mat_at(m, r, 0) * x + mat_at(m, r, 1) * y + mat_at(m, r, 2) * z + mat_at(m, r, 3) * (FX as int)
}

/// Transform of a model-space point to homogeneous clip coordinates,
/// perspective divide, and saturation into the guard band. A point whose
/// clip-space w lands on exactly zero has no finite quotient and projects
/// to nothing.
pub open spec fn project_spec(p: Fx3, m: Mat4Fx) -> Option<ProjVertex> {
    let cx = tdiv(mat_row_apply(m, 0, p.x as int, p.y as int, p.z as int), FX as int);
    let cy = tdiv(mat_row_apply(m, 1, p.x as int, p.y as int, p.z as int), FX as int);
    let cz = tdiv(mat_row_apply(m, 2, p.x as int, p.y as int, p.z as int), FX as int);
    let cw = tdiv(mat_row_apply(m, 3, p.x as int, p.y as int, p.z as int), FX as int);
    if cw == 0 {
        None
    } else {
        let iw = sdiv((FX as int) * (FX as int), cw);
        Some(
            ProjVertex {
                x: spec_clamp(tdiv(cx * iw, FX as int), -GUARD as int, GUARD as int) as i64,
                y: spec_clamp(tdiv(cy * iw, FX as int), -GUARD as int, GUARD as int) as i64,
                z: spec_clamp(tdiv(cz * iw, FX as int), -GUARD as int, GUARD as int) as i64,
                inv_w: iw as i64,
            },
        )
    }
}

/// The viewport mapping `(ndc * -1/2 + 1/2) * size`: both axes flip, which
/// matches the target surface's row order.
pub open spec fn screen_coord_spec(ndc: int, size: int) -> int {
    tdiv((FX - ndc) * size, 2)
}

/// The edge function. For `a` and `c` two triangle vertices and `b` a
/// sample point, its sign says on which side of the directed line `a -> c`
/// the point lies; applied to the three vertices it is twice the
/// triangle's signed area.
pub open spec fn edge_fn(ax: int, ay: int, cx: int, cy: int, bx: int, by: int) -> int {
    (cx - ax) * (by - ay) - (cy - ay) * (bx - ax)
}

/// The three edge functions at a point partition the full triangle's
/// doubled signed area. Each product distributes into canonical monomials,
/// which then cancel linearly.
pub proof fn lemma_edge_sum(
    ax: int,
    ay: int,
    bx: int,
    by: int,
    cx: int,
    cy: int,
    px: int,
    py: int,
)
    ensures
        edge_fn(bx, by, cx, cy, px, py) + edge_fn(cx, cy, ax, ay, px, py) + edge_fn(
            ax,
            ay,
            bx,
            by,
            px,
            py,
        ) == edge_fn(ax, ay, bx, by, cx, cy),
{
    assert((cx - bx) * (py - by) == cx * py - by * cx - bx * py + bx * by) by (nonlinear_arith);
    assert((cy - by) * (px - bx) == cy * px - bx * cy - by * px + bx * by) by (nonlinear_arith);
    assert((ax - cx) * (py - cy) == ax * py - ax * cy - cx * py + cx * cy) by (nonlinear_arith);
    assert((ay - cy) * (px - cx) == ay * px - ay * cx - cy * px + cx * cy) by (nonlinear_arith);
    assert((bx - ax) * (py - ay) == bx * py - ay * bx - ax * py + ax * ay) by (nonlinear_arith);
    assert((by - ay) * (px - ax) == by * px - ax * by - ay * px + ax * ay) by (nonlinear_arith);
    assert((bx - ax) * (cy - ay) == bx * cy - ay * bx - ax * cy + ax * ay) by (nonlinear_arith);
    assert((by - ay) * (cx - ax) == by * cx - ax * by - ay * cx + ax * ay) by (nonlinear_arith);
}

/// Project one point through the model-view-projection matrix.
pub fn project(p: Fx3, mvp: &Mat4Fx) -> (r: Option<ProjVertex>)
    requires
        mat_wf(*mvp),
        -COORD_LIMIT <= p.x <= COORD_LIMIT,
        -COORD_LIMIT <= p.y <= COORD_LIMIT,
        -COORD_LIMIT <= p.z <= COORD_LIMIT,
    ensures
        r == project_spec(p, *mvp),
        r is Some ==> {
            let v = r->Some_0;
            -GUARD <= v.x <= GUARD && -GUARD <= v.y <= GUARD && -GUARD <= v.z <= GUARD
                && -INVW_LIMIT <= v.inv_w <= INVW_LIMIT
        },
{
    let rx = row_apply(mvp, 0, p);
    let ry = row_apply(mvp, 1, p);
    let rz = row_apply(mvp, 2, p);
    let rw = row_apply(mvp, 3, p);
    let cx = div_fx(rx, FX as i128);
    let cy = div_fx(ry, FX as i128);
    let cz = div_fx(rz, FX as i128);
    let cw = div_fx(rw, FX as i128);
    proof {
        lemma_tdiv_shrinks(rx as int, FX as int);
        lemma_tdiv_shrinks(ry as int, FX as int);
        lemma_tdiv_shrinks(rz as int, FX as int);
        lemma_tdiv_shrinks(rw as int, FX as int);
    }
    if cw == 0 {
        None
    } else {
        let iw = div_signed((FX as i128) * (FX as i128), cw);
        Some(
            ProjVertex {
                x: ndc_coord(cx, iw),
                y: ndc_coord(cy, iw),
                z: ndc_coord(cz, iw),
                inv_w: iw as i64,
            },
        )
    }
}

/// One clip coordinate times the reciprocal w, scaled back down and
/// saturated into the guard band.
fn ndc_coord(c: i128, iw: i128) -> (r: i64)
    requires
        -0x1_0000_0000_0000_0000 <= c <= 0x1_0000_0000_0000_0000,
        -INVW_LIMIT <= iw <= INVW_LIMIT,
    ensures
        r == spec_clamp(tdiv(c as int * iw, FX as int), -GUARD as int, GUARD as int),
{
    proof {
        assert(-0x1_0000_0000_0000_0000 * 0x1_0000_0000 <= (c as int) * (iw as int)
            <= 0x1_0000_0000_0000_0000 * 0x1_0000_0000) by (nonlinear_arith)
            requires
                -0x1_0000_0000_0000_0000 <= c <= 0x1_0000_0000_0000_0000,
                -0x1_0000_0000 <= iw <= 0x1_0000_0000,
        ;
    }
    let wide: i128 = c * iw;
    let q = div_fx(wide, FX as i128);
    proof {
        lemma_tdiv_shrinks(wide as int, FX as int);
    }
    clamp_i128(q, -GUARD as i128, GUARD as i128) as i64
}

/// Row `r` of `m` applied to the homogeneous point `(p, 1)`.
fn row_apply(m: &Mat4Fx, r: usize, p: Fx3) -> (s: i128)
    requires
        r < 4,
        mat_wf(*m),
        -COORD_LIMIT <= p.x <= COORD_LIMIT,
        -COORD_LIMIT <= p.y <= COORD_LIMIT,
        -COORD_LIMIT <= p.z <= COORD_LIMIT,
    ensures
        s == mat_row_apply(*m, r as int, p.x as int, p.y as int, p.z as int),
        -0x1_0000_0000_0000_0000 <= s <= 0x1_0000_0000_0000_0000,
{
    let base: usize = 4 * r;
    let e0 = m.e[base];
    let e1 = m.e[base + 1];
    let e2 = m.e[base + 2];
    let e3 = m.e[base + 3];
    proof {
        assert(-0x4000_0000_0000_0000 <= (e0 as int) * (p.x as int) <= 0x4000_0000_0000_0000)
            by (nonlinear_arith)
            requires
                -0x8000_0000 <= e0 <= 0x8000_0000,
                -0x8000_0000 <= p.x <= 0x8000_0000,
        ;
        assert(-0x4000_0000_0000_0000 <= (e1 as int) * (p.y as int) <= 0x4000_0000_0000_0000)
            by (nonlinear_arith)
            requires
                -0x8000_0000 <= e1 <= 0x8000_0000,
                -0x8000_0000 <= p.y <= 0x8000_0000,
        ;
        assert(-0x4000_0000_0000_0000 <= (e2 as int) * (p.z as int) <= 0x4000_0000_0000_0000)
            by (nonlinear_arith)
            requires
                -0x8000_0000 <= e2 <= 0x8000_0000,
                -0x8000_0000 <= p.z <= 0x8000_0000,
        ;
    }
    (e0 as i128) * (p.x as i128) + (e1 as i128) * (p.y as i128) + (e2 as i128) * (p.z as i128) + (
    e3 as i128) * (FX as i128)
}

/// Map one normalized-device point into screen space.
pub fn clip_to_screen_space(clip: Fx2, screen_w: usize, screen_h: usize) -> (r: Fx2)
    requires
        -GUARD <= clip.x <= GUARD,
        -GUARD <= clip.y <= GUARD,
        screen_w <= MAX_DIM,
        screen_h <= MAX_DIM,
    ensures
        r.x == screen_coord_spec(clip.x as int, screen_w as int),
        r.y == screen_coord_spec(clip.y as int, screen_h as int),
        -SXY_LIMIT <= r.x <= SXY_LIMIT,
        -SXY_LIMIT <= r.y <= SXY_LIMIT,
{
    Fx2 { x: screen_coord(clip.x, screen_w), y: screen_coord(clip.y, screen_h) }
}

/// One axis of the viewport mapping.
fn screen_coord(ndc: i64, size: usize) -> (r: i64)
    requires
        -GUARD <= ndc <= GUARD,
        size <= MAX_DIM,
    ensures
        r == screen_coord_spec(ndc as int, size as int),
        -SXY_LIMIT <= r <= SXY_LIMIT,
{
    proof {
        assert(-0x20_0001_0000 * 0x8000 <= (FX - ndc) as int * (size as int) <= 0x20_0001_0000
            * 0x8000) by (nonlinear_arith)
            requires
                -0x20_0001_0000 <= FX - ndc <= 0x20_0001_0000,
                0 <= size <= 0x8000,
        ;
    }
    let wide: i128 = ((FX - ndc) as i128) * (size as i128);
    let q = div_fx(wide, 2);
    proof {
        lemma_tdiv_shrinks(wide as int, 2);
    }
    q as i64
}

/// The edge function on screen-space points `a`, `c` and sample point `b`.
pub fn edge_function(a: Fx2, c: Fx2, b: Fx2) -> (r: i128)
    requires
        -SXY_LIMIT <= a.x <= SXY_LIMIT && -SXY_LIMIT <= a.y <= SXY_LIMIT,
        -SXY_LIMIT <= c.x <= SXY_LIMIT && -SXY_LIMIT <= c.y <= SXY_LIMIT,
        -SXY_LIMIT <= b.x <= SXY_LIMIT && -SXY_LIMIT <= b.y <= SXY_LIMIT,
    ensures
        r == edge_fn(a.x as int, a.y as int, c.x as int, c.y as int, b.x as int, b.y as int),
        -0x800_0000_0000_0000_0000_0000_0000 <= r <= 0x800_0000_0000_0000_0000_0000_0000,
{
    proof {
        assert(-0x400_0000_0000_0000_0000_0000_0000 <= (c.x - a.x) as int * (b.y - a.y) as int
            <= 0x400_0000_0000_0000_0000_0000_0000) by (nonlinear_arith)
            requires
                -0x20_0000_0000_0000 <= c.x - a.x <= 0x20_0000_0000_0000,
                -0x20_0000_0000_0000 <= b.y - a.y <= 0x20_0000_0000_0000,
        ;
        assert(-0x400_0000_0000_0000_0000_0000_0000 <= (c.y - a.y) as int * (b.x - a.x) as int
            <= 0x400_0000_0000_0000_0000_0000_0000) by (nonlinear_arith)
            requires
                -0x20_0000_0000_0000 <= c.y - a.y <= 0x20_0000_0000_0000,
                -0x20_0000_0000_0000 <= b.x - a.x <= 0x20_0000_0000_0000,
        ;
    }
    ((c.x - a.x) as i128) * ((b.y - a.y) as i128) - ((c.y - a.y) as i128) * ((b.x - a.x) as i128)
}

/// Half of one fixed-point unit: sampling happens at pixel centers.
pub const HALF_FX: i64 = 0x8000;

/// A projected vertex mapped to screen space, with its device depth and
/// reciprocal w.
#[derive(Clone, Copy, PartialEq, Eq, Structural, Debug)]
pub struct ScreenVertex {
    pub sx: i64,
    pub sy: i64,
    pub z: i64,
    pub inv_w: i64,
}

/// Everything one triangle needs per pixel: screen-space vertices,
/// transformed normals, texture coordinates.
#[derive(Clone, Copy, PartialEq, Eq, Structural, Debug)]
pub struct TriSetup {
    pub v0: ScreenVertex,
    pub v1: ScreenVertex,
    pub v2: ScreenVertex,
    pub n0: Fx3,
    pub n1: Fx3,
    pub n2: Fx3,
    pub uv0: Fx2,
    pub uv1: Fx2,
    pub uv2: Fx2,
}

pub open spec fn sv_wf(v: ScreenVertex) -> bool {
    &&& -SXY_LIMIT <= v.sx <= SXY_LIMIT
    &&& -SXY_LIMIT <= v.sy <= SXY_LIMIT
    &&& -GUARD <= v.z <= GUARD
    &&& -INVW_LIMIT <= v.inv_w <= INVW_LIMIT
}

pub open spec fn fx3_bounded(v: Fx3, m: int) -> bool {
    -m <= v.x <= m && -m <= v.y <= m && -m <= v.z <= m
}

pub open spec fn setup_wf(s: TriSetup) -> bool {
    &&& sv_wf(s.v0)
    &&& sv_wf(s.v1)
    &&& sv_wf(s.v2)
    &&& fx3_bounded(s.n0, NRM_LIMIT as int)
    &&& fx3_bounded(s.n1, NRM_LIMIT as int)
    &&& fx3_bounded(s.n2, NRM_LIMIT as int)
    &&& -COORD_LIMIT <= s.uv0.x <= COORD_LIMIT && -COORD_LIMIT <= s.uv0.y <= COORD_LIMIT
    &&& -COORD_LIMIT <= s.uv1.x <= COORD_LIMIT && -COORD_LIMIT <= s.uv1.y <= COORD_LIMIT
    &&& -COORD_LIMIT <= s.uv2.x <= COORD_LIMIT && -COORD_LIMIT <= s.uv2.y <= COORD_LIMIT
}

/// A direction taken through a matrix as the homogeneous point `(n, 1)`,
/// keeping the first three components, the way the inverse-transpose model
/// matrix is applied to normals.
pub open spec fn xform_dir_spec(m: Mat4Fx, n: Fx3) -> Fx3 {
    Fx3 {
        x: tdiv(mat_row_apply(m, 0, n.x as int, n.y as int, n.z as int), FX as int) as i64,
        y: tdiv(mat_row_apply(m, 1, n.x as int, n.y as int, n.z as int), FX as int) as i64,
        z: tdiv(mat_row_apply(m, 2, n.x as int, n.y as int, n.z as int), FX as int) as i64,
    }
}

/// Screen-space setup of one triangle, or nothing when a vertex has no
/// finite projection.
pub open spec fn tri_setup_spec(
    v0: Vertex,
    v1: Vertex,
    v2: Vertex,
    mvp: Mat4Fx,
    itm: Mat4Fx,
    w: int,
    h: int,
) -> Option<TriSetup> {
    match (project_spec(v0.position, mvp), project_spec(v1.position, mvp), project_spec(
        v2.position,
        mvp,
    )) {
        (Some(p0), Some(p1), Some(p2)) => Some(
            TriSetup {
                v0: ScreenVertex {
                    sx: screen_coord_spec(p0.x as int, w) as i64,
                    sy: screen_coord_spec(p0.y as int, h) as i64,
                    z: p0.z,
                    inv_w: p0.inv_w,
                },
                v1: ScreenVertex {
                    sx: screen_coord_spec(p1.x as int, w) as i64,
                    sy: screen_coord_spec(p1.y as int, h) as i64,
                    z: p1.z,
                    inv_w: p1.inv_w,
                },
                v2: ScreenVertex {
                    sx: screen_coord_spec(p2.x as int, w) as i64,
                    sy: screen_coord_spec(p2.y as int, h) as i64,
                    z: p2.z,
                    inv_w: p2.inv_w,
                },
                n0: xform_dir_spec(itm, v0.normal),
                n1: xform_dir_spec(itm, v1.normal),
                n2: xform_dir_spec(itm, v2.normal),
                uv0: v0.tex_coord,
                uv1: v1.tex_coord,
                uv2: v2.tex_coord,
            },
        ),
        _ => None,
    }
}

/// The fixed-point coordinate of the center of pixel column or row `x`.
pub open spec fn px_center(x: int) -> int {
    x * FX + HALF_FX
}

/// The edge function against edge `v1 -> v2` at the center of pixel `(x, y)`.
pub open spec fn pixel_a0(s: TriSetup, x: int, y: int) -> int {
    edge_fn(s.v1.sx as int, s.v1.sy as int, s.v2.sx as int, s.v2.sy as int, px_center(x), px_center(y))
}

/// The edge function against edge `v2 -> v0`.
pub open spec fn pixel_a1(s: TriSetup, x: int, y: int) -> int {
    edge_fn(s.v2.sx as int, s.v2.sy as int, s.v0.sx as int, s.v0.sy as int, px_center(x), px_center(y))
}

/// The edge function against edge `v0 -> v1`.
pub open spec fn pixel_a2(s: TriSetup, x: int, y: int) -> int {
    edge_fn(s.v0.sx as int, s.v0.sy as int, s.v1.sx as int, s.v1.sy as int, px_center(x), px_center(y))
}

/// Twice the triangle's signed screen-space area.
pub open spec fn tri_area2(s: TriSetup) -> int {
    edge_fn(s.v0.sx as int, s.v0.sy as int, s.v1.sx as int, s.v1.sy as int, s.v2.sx as int, s.v2.sy as int)
}

/// Coverage: the pixel center lies strictly inside all three edges, so
/// centers exactly on an edge belong to neither adjacent triangle.
pub open spec fn pixel_covered(s: TriSetup, x: int, y: int) -> bool {
    pixel_a0(s, x, y) > 0 && pixel_a1(s, x, y) > 0 && pixel_a2(s, x, y) > 0
}

/// The three barycentric weights at a covered pixel, normalized by the
/// doubled area and carried in fixed point.
pub open spec fn pixel_bary(s: TriSetup, x: int, y: int) -> (int, int, int)
    recommends
        pixel_covered(s, x, y),
{
    let area = tri_area2(s);
    (
        tdiv(pixel_a0(s, x, y) * FX, area),
        tdiv(pixel_a1(s, x, y) * FX, area),
        tdiv(pixel_a2(s, x, y) * FX, area),
    )
}

/// Device depth, interpolated linearly in screen-space weights: depth is
/// linear in screen space by construction of the projection, so no
/// perspective correction applies here.
pub open spec fn pixel_z(s: TriSetup, x: int, y: int) -> int {
    let (b0, b1, b2) = pixel_bary(s, x, y);
    tdiv(b0 * s.v0.z + b1 * s.v1.z + b2 * s.v2.z, FX as int)
}

/// The perspective-correction denominator: the interpolated reciprocal w.
pub open spec fn pixel_denom(s: TriSetup, x: int, y: int) -> int {
    let (b0, b1, b2) = pixel_bary(s, x, y);
    b0 * s.v0.inv_w + b1 * s.v1.inv_w + b2 * s.v2.inv_w
}

/// Perspective-correct interpolation of one attribute channel: each
/// vertex value weighted by its barycentric weight and reciprocal w, then
/// normalized by the interpolated reciprocal w.
pub open spec fn pcorrect(s: TriSetup, x: int, y: int, q0: int, q1: int, q2: int) -> int
    recommends
        pixel_denom(s, x, y) != 0,
{
    let (b0, b1, b2) = pixel_bary(s, x, y);
    spec_clamp(
        sdiv(
            b0 * s.v0.inv_w * q0 + b1 * s.v1.inv_w * q1 + b2 * s.v2.inv_w * q2,
            pixel_denom(s, x, y),
        ),
        -GUARD as int,
        GUARD as int,
    )
}

/// A vector scaled to unit length (in fixed point); the zero vector stays
/// zero.
pub open spec fn normalize_spec(v: Fx3) -> Fx3 {
    let l2 = v.x * v.x + v.y * v.y + v.z * v.z;
    let l = crate::fx::isqrt_spec(l2 as nat) as int;
    if l == 0 {
        Fx3 { x: 0, y: 0, z: 0 }
    } else {
        Fx3 {
            x: tdiv(v.x * FX, l) as i64,
            y: tdiv(v.y * FX, l) as i64,
            z: tdiv(v.z * FX, l) as i64,
        }
    }
}

/// The one directional light: `normalize(0.3, -0.8, -0.4)` in fixed point.
pub open spec fn light_vec() -> Fx3 {
    normalize_spec(Fx3 { x: 19661i64, y: -52429i64, z: -26214i64 })
}

/// The unit surface normal at a covered pixel.
pub open spec fn pixel_normal(s: TriSetup, x: int, y: int) -> Fx3 {
    normalize_spec(
        Fx3 {
            x: pcorrect(s, x, y, s.n0.x as int, s.n1.x as int, s.n2.x as int) as i64,
            y: pcorrect(s, x, y, s.n0.y as int, s.n1.y as int, s.n2.y as int) as i64,
            z: pcorrect(s, x, y, s.n0.z as int, s.n1.z as int, s.n2.z as int) as i64,
        },
    )
}

/// The interpolated texture coordinate at a covered pixel.
pub open spec fn pixel_uv(s: TriSetup, x: int, y: int) -> Fx2 {
    Fx2 {
        x: pcorrect(s, x, y, s.uv0.x as int, s.uv1.x as int, s.uv2.x as int) as i64,
        y: pcorrect(s, x, y, s.uv0.y as int, s.uv1.y as int, s.uv2.y as int) as i64,
    }
}

/// The product of two fixed-point factors.
pub open spec fn modulate(a: int, b: int) -> int {
    tdiv(a * b, FX as int)
}

/// The surface color before lighting: the material's base color, times
/// the bilinear texture sample where the material has a texture.
pub open spec fn pixel_base(s: TriSetup, mat: Material, x: int, y: int) -> Fx4 {
    match mat.base_color_texture {
        None => mat.base_color,
        Some(t) => {
            let sm = t.sample_spec(pixel_uv(s, x, y).x as int, pixel_uv(s, x, y).y as int);
            Fx4 {
                x: modulate(mat.base_color.x as int, sm.x as int) as i64,
                y: modulate(mat.base_color.y as int, sm.y as int) as i64,
                z: modulate(mat.base_color.z as int, sm.z as int) as i64,
                w: modulate(mat.base_color.w as int, sm.w as int) as i64,
            }
        },
    }
}

/// The dot product of a surface normal with the light direction reversed.
pub open spec fn lambert(n: Fx3, l: Fx3) -> int {
    tdiv(n.x * (-l.x) + n.y * (-l.y) + n.z * (-l.z), FX as int)
}

/// Lambertian intensity against the fixed light, deliberately unclamped:
/// backlit surfaces go negative and darken below black.
pub open spec fn pixel_intensity(s: TriSetup, x: int, y: int) -> int {
    lambert(pixel_normal(s, x, y), light_vec())
}

/// The shaded color written on a depth-test pass.
pub open spec fn pixel_color(s: TriSetup, mat: Material, x: int, y: int) -> Fx3 {
    let b = pixel_base(s, mat, x, y);
    let it = pixel_intensity(s, x, y);
    Fx3 {
        x: modulate(b.x as int, it) as i64,
        y: modulate(b.y as int, it) as i64,
        z: modulate(b.z as int, it) as i64,
    }
}

/// What one pixel's color and depth become: covered, with a finite
/// perspective denominator and a depth strictly nearer than the stored
/// one, the pixel takes the shaded color and the new depth; otherwise it
/// keeps its values. A zero denominator has no finite correction, and the
/// coverage and depth tests absorb such pixels by skipping them.
pub open spec fn pixel_after(
    s: TriSetup,
    mat: Material,
    x: int,
    y: int,
    cold: Fx3,
    dold: i64,
) -> (Fx3, i64) {
    if pixel_covered(s, x, y) && pixel_denom(s, x, y) != 0 && pixel_z(s, x, y) < dold {
        (pixel_color(s, mat, x, y), pixel_z(s, x, y) as i64)
    } else {
        (cold, dold)
    }
}

/// The flat row-major index of pixel `(x, y)`.
pub open spec fn pix(w: int, x: int, y: int) -> int {
    y * w + x
}

/// A direction through a matrix, as normals go through the
/// inverse-transpose model matrix.
pub fn xform_dir(m: &Mat4Fx, n: Fx3) -> (r: Fx3)
    requires
        mat_wf(*m),
        -COORD_LIMIT <= n.x <= COORD_LIMIT,
        -COORD_LIMIT <= n.y <= COORD_LIMIT,
        -COORD_LIMIT <= n.z <= COORD_LIMIT,
    ensures
        r == xform_dir_spec(*m, n),
        fx3_bounded(r, NRM_LIMIT as int),
{
    let rx = row_apply(m, 0, n);
    let ry = row_apply(m, 1, n);
    let rz = row_apply(m, 2, n);
    let tx = div_fx(rx, FX as i128);
    let ty = div_fx(ry, FX as i128);
    let tz = div_fx(rz, FX as i128);
    proof {
        lemma_row_div_bound(rx as int);
        lemma_row_div_bound(ry as int);
        lemma_row_div_bound(rz as int);
    }
    Fx3 { x: tx as i64, y: ty as i64, z: tz as i64 }
}

/// A row product within `FX * FX * COORD_LIMIT` scales down to within
/// `NRM_LIMIT`.
proof fn lemma_row_div_bound(a: int)
    requires
        -0x1_0000_0000_0000_0000 <= a <= 0x1_0000_0000_0000_0000,
    ensures
        -NRM_LIMIT <= tdiv(a, FX as int) <= NRM_LIMIT,
{
    lemma_tdiv_ordered(a, 0x1_0000_0000_0000_0000, FX as int);
    lemma_tdiv_ordered(-0x1_0000_0000_0000_0000, a, FX as int);
    assert(tdiv(0x1_0000_0000_0000_0000, FX as int) == 0x1_0000_0000_0000);
    assert(tdiv(-0x1_0000_0000_0000_0000, FX as int) == -0x1_0000_0000_0000);
}

/// Set one triangle up for rasterization against a `w` by `h` target.
pub fn tri_setup(
    v0: &Vertex,
    v1: &Vertex,
    v2: &Vertex,
    mvp: &Mat4Fx,
    itm: &Mat4Fx,
    w: usize,
    h: usize,
) -> (r: Option<TriSetup>)
    requires
        v0.wf(),
        v1.wf(),
        v2.wf(),
        mat_wf(*mvp),
        mat_wf(*itm),
        w <= MAX_DIM,
        h <= MAX_DIM,
    ensures
        r == tri_setup_spec(*v0, *v1, *v2, *mvp, *itm, w as int, h as int),
        r is Some ==> setup_wf(r->Some_0),
{
    let p0 = project(v0.position, mvp);
    let p1 = project(v1.position, mvp);
    let p2 = project(v2.position, mvp);
    match (p0, p1, p2) {
        (Some(p0), Some(p1), Some(p2)) => Some(
            TriSetup {
                v0: ScreenVertex {
                    sx: screen_coord(p0.x, w),
                    sy: screen_coord(p0.y, h),
                    z: p0.z,
                    inv_w: p0.inv_w,
                },
                v1: ScreenVertex {
                    sx: screen_coord(p1.x, w),
                    sy: screen_coord(p1.y, h),
                    z: p1.z,
                    inv_w: p1.inv_w,
                },
                v2: ScreenVertex {
                    sx: screen_coord(p2.x, w),
                    sy: screen_coord(p2.y, h),
                    z: p2.z,
                    inv_w: p2.inv_w,
                },
                n0: xform_dir(itm, v0.normal),
                n1: xform_dir(itm, v1.normal),
                n2: xform_dir(itm, v2.normal),
                uv0: v0.tex_coord,
                uv1: v1.tex_coord,
                uv2: v2.tex_coord,
            },
        ),
        _ => None,
    }
}

/// Scale a vector to unit length; the zero vector stays zero, and its
/// zero intensity then shades the pixel black.
pub fn normalize_fx(v: Fx3) -> (r: Fx3)
    requires
        -GUARD <= v.x <= GUARD,
        -GUARD <= v.y <= GUARD,
        -GUARD <= v.z <= GUARD,
    ensures
        r == normalize_spec(v),
        -FX <= r.x <= FX && -FX <= r.y <= FX && -FX <= r.z <= FX,
{
    proof {
        assert(0 <= (v.x as int) * (v.x as int) <= 0x10_0000_0000 * 0x10_0000_0000)
            by (nonlinear_arith)
            requires
                -0x10_0000_0000 <= v.x <= 0x10_0000_0000,
        ;
        assert(0 <= (v.y as int) * (v.y as int) <= 0x10_0000_0000 * 0x10_0000_0000)
            by (nonlinear_arith)
            requires
                -0x10_0000_0000 <= v.y <= 0x10_0000_0000,
        ;
        assert(0 <= (v.z as int) * (v.z as int) <= 0x10_0000_0000 * 0x10_0000_0000)
            by (nonlinear_arith)
            requires
                -0x10_0000_0000 <= v.z <= 0x10_0000_0000,
        ;
    }
    let x2 = (v.x as i128) * (v.x as i128);
    let y2 = (v.y as i128) * (v.y as i128);
    let z2 = (v.z as i128) * (v.z as i128);
    let l2 = x2 + y2 + z2;
    let l = crate::fx::isqrt(l2 as u128);
    if l == 0 {
        Fx3 { x: 0, y: 0, z: 0 }
    } else {
        proof {
            assert(-(l as int) <= v.x <= l as int) by (nonlinear_arith)
                requires
                    (v.x as int) * (v.x as int) <= l2 as int,
                    (l2 as int) < (l as int + 1) * (l as int + 1),
                    l >= 0,
            ;
            assert(-(l as int) <= v.y <= l as int) by (nonlinear_arith)
                requires
                    (v.y as int) * (v.y as int) <= l2 as int,
                    (l2 as int) < (l as int + 1) * (l as int + 1),
                    l >= 0,
            ;
            assert(-(l as int) <= v.z <= l as int) by (nonlinear_arith)
                requires
                    (v.z as int) * (v.z as int) <= l2 as int,
                    (l2 as int) < (l as int + 1) * (l as int + 1),
                    l >= 0,
            ;
        }
        let nx = unit_div(v.x, l);
        let ny = unit_div(v.y, l);
        let nz = unit_div(v.z, l);
        Fx3 { x: nx, y: ny, z: nz }
    }
}

/// One normalized component: `c * FX / l` for `|c| <= l`, which lands in
/// `[-FX, FX]`.
fn unit_div(c: i64, l: u128) -> (r: i64)
    requires
        0 < l,
        -(l as int) <= c <= l as int,
        l <= 0x1_0000_0000_0000_0000,
    ensures
        r == tdiv(c as int * FX, l as int),
        -FX <= r <= FX,
{
    proof {
        assert((c as int) * FX <= (FX as int) * (l as int) && -((FX as int) * (l as int)) <= (
        c as int) * FX) by (nonlinear_arith)
            requires
                -(l as int) <= c <= l as int,
                l > 0,
                FX > 0,
        ;
        lemma_tdiv_ordered(c as int * FX, (FX as int) * (l as int), l as int);
        lemma_tdiv_ordered(-((FX as int) * (l as int)), c as int * FX, l as int);
        lemma_tdiv_multiple(FX as int, l as int);
        lemma_tdiv_multiple(-(FX as int), l as int);
        assert((FX as int) * (l as int) == (l as int) * (FX as int)) by (nonlinear_arith);
        assert(-((FX as int) * (l as int)) == (-(FX as int)) * (l as int)) by (nonlinear_arith);
    }
    let wide: i128 = (c as i128) * (FX as i128);
    div_fx(wide, l as i128) as i64
}

/// One barycentric weight: `a * FX / area`, in `[0, FX]` for a positive
/// weight below the full area.
fn bary_div(a: i128, area: i128) -> (b: i128)
    requires
        0 < a,
        a < area,
        area <= 0x800_0000_0000_0000_0000_0000_0000,
    ensures
        b == tdiv(a as int * FX, area as int),
        0 <= b <= FX,
{
    proof {
        assert(0 <= (a as int) * FX && (a as int) * FX <= (FX as int) * (area as int))
            by (nonlinear_arith)
            requires
                0 < a <= area,
                FX > 0,
        ;
        lemma_tdiv_ordered(0, a as int * FX, area as int);
        lemma_tdiv_ordered(a as int * FX, (FX as int) * (area as int), area as int);
        lemma_tdiv_multiple(FX as int, area as int);
    }
    div_fx(a * (FX as i128), area)
}

/// Perspective-correct interpolation of one attribute channel from
/// weights, reciprocal w values and the interpolated reciprocal w.
fn correct_attr(
    b0: i128,
    b1: i128,
    b2: i128,
    s: &TriSetup,
    q0: i64,
    q1: i64,
    q2: i64,
    denom: i128,
) -> (r: i64)
    requires
        setup_wf(*s),
        0 <= b0 <= FX,
        0 <= b1 <= FX,
        0 <= b2 <= FX,
        -NRM_LIMIT <= q0 <= NRM_LIMIT,
        -NRM_LIMIT <= q1 <= NRM_LIMIT,
        -NRM_LIMIT <= q2 <= NRM_LIMIT,
        denom != 0,
        -0x1_0000_0000_0000_0000 <= denom <= 0x1_0000_0000_0000_0000,
    ensures
        r == spec_clamp(
            sdiv(
                b0 * s.v0.inv_w * (q0 as int) + b1 * s.v1.inv_w * (q1 as int) + b2 * s.v2.inv_w * (
                q2 as int),
                denom as int,
            ),
            -GUARD as int,
            GUARD as int,
        ),
{
    let t0 = weighted_attr(b0, s.v0.inv_w, q0);
    let t1 = weighted_attr(b1, s.v1.inv_w, q1);
    let t2 = weighted_attr(b2, s.v2.inv_w, q2);
    let q = div_signed(t0 + t1 + t2, denom);
    clamp_i128(q, -GUARD as i128, GUARD as i128) as i64
}

/// One numerator term `b * inv_w * q` of the perspective interpolation.
fn weighted_attr(b: i128, iw: i64, q: i64) -> (t: i128)
    requires
        0 <= b <= FX,
        -INVW_LIMIT <= iw <= INVW_LIMIT,
        -NRM_LIMIT <= q <= NRM_LIMIT,
    ensures
        t == b * (iw as int) * (q as int),
        -0x1000_0000_0000_0000_0000_0000_0000 <= t <= 0x1000_0000_0000_0000_0000_0000_0000,
{
    proof {
        assert(-0x1_0000 * 0x1_0000_0000 <= (b as int) * (iw as int) <= 0x1_0000 * 0x1_0000_0000)
            by (nonlinear_arith)
            requires
                0 <= b <= 0x1_0000,
                -0x1_0000_0000 <= iw <= 0x1_0000_0000,
        ;
        assert(-0x1_0000_0000_0000 * 0x4_0000_0000_0000 <= ((b as int) * (iw as int)) * (q as int)
            <= 0x1_0000_0000_0000 * 0x4_0000_0000_0000) by (nonlinear_arith)
            requires
                -0x1_0000_0000_0000 <= (b as int) * (iw as int) <= 0x1_0000_0000_0000,
                -0x4_0000_0000_0000 <= q <= 0x4_0000_0000_0000,
        ;
    }
    b * (iw as i128) * (q as i128)
}

/// The product of two fixed-point factors, for a second factor within
/// five units.
fn modulate_exec(a: i64, b: i64) -> (r: i64)
    requires
        -0x100_0000_0000 <= a <= 0x100_0000_0000,
        -5 * FX <= b <= 5 * FX,
    ensures
        r == modulate(a as int, b as int),
        -5 * abs(a as int) <= r <= 5 * abs(a as int),
{
    proof {
        let m = abs(a as int);
        assert(-(m * (5 * FX)) <= (a as int) * (b as int) <= m * (5 * FX)) by (nonlinear_arith)
            requires
                -m <= a <= m,
                -5 * FX <= b <= 5 * FX,
                m >= 0,
        ;
        assert(m * (5 * FX) == (5 * m) * FX) by (nonlinear_arith);
        assert(-(m * (5 * FX)) == (-(5 * m)) * FX) by (nonlinear_arith);
        lemma_tdiv_ordered((a as int) * (b as int), (5 * m) * FX, FX as int);
        lemma_tdiv_ordered((-(5 * m)) * FX, (a as int) * (b as int), FX as int);
        lemma_tdiv_multiple(5 * m, FX as int);
        lemma_tdiv_multiple(-(5 * m), FX as int);
    }
    let wide: i128 = (a as i128) * (b as i128);
    div_fx(wide, FX as i128) as i64
}

/// The Lambert term: normal dot reversed light, both unit fixed-point
/// vectors, left unclamped.
fn lambert_exec(n: Fx3, l: Fx3) -> (r: i64)
    requires
        -FX <= n.x <= FX && -FX <= n.y <= FX && -FX <= n.z <= FX,
        -FX <= l.x <= FX && -FX <= l.y <= FX && -FX <= l.z <= FX,
    ensures
        r == lambert(n, l),
        -3 * FX <= r <= 3 * FX,
{
    proof {
        assert(-0x1_0000 * 0x1_0000 <= (n.x as int) * (-l.x as int) <= 0x1_0000 * 0x1_0000)
            by (nonlinear_arith)
            requires
                -0x1_0000 <= n.x <= 0x1_0000,
                -0x1_0000 <= l.x <= 0x1_0000,
        ;
        assert(-0x1_0000 * 0x1_0000 <= (n.y as int) * (-l.y as int) <= 0x1_0000 * 0x1_0000)
            by (nonlinear_arith)
            requires
                -0x1_0000 <= n.y <= 0x1_0000,
                -0x1_0000 <= l.y <= 0x1_0000,
        ;
        assert(-0x1_0000 * 0x1_0000 <= (n.z as int) * (-l.z as int) <= 0x1_0000 * 0x1_0000)
            by (nonlinear_arith)
            requires
                -0x1_0000 <= n.z <= 0x1_0000,
                -0x1_0000 <= l.z <= 0x1_0000,
        ;
    }
    let dot: i128 = (n.x as i128) * ((-l.x) as i128) + (n.y as i128) * ((-l.y) as i128) + (
    n.z as i128) * ((-l.z) as i128);
    proof {
        lemma_tdiv_ordered(dot as int, (3 * 0x1_0000 * 0x1_0000) as int, FX as int);
        lemma_tdiv_ordered(-((3 * 0x1_0000 * 0x1_0000) as int), dot as int, FX as int);
        assert(tdiv((3 * 0x1_0000 * 0x1_0000) as int, FX as int) == 3 * FX);
        assert(tdiv(-((3 * 0x1_0000 * 0x1_0000) as int), FX as int) == -(3 * FX));
    }
    div_fx(dot, FX as i128) as i64
}

/// Rasterize one pixel: coverage against the three edges, the depth test,
/// and on a pass the depth write followed by shading and the color write.
fn pixel_step(
    s: &TriSetup,
    mat: &Material,
    light: Fx3,
    x: usize,
    y: usize,
    fb: &mut crate::framebuffer::Framebuffer<Fx3>,
    db: &mut crate::framebuffer::Framebuffer<i64>,
)
    requires
        setup_wf(*s),
        mat.wf(),
        light == light_vec(),
        -FX <= light.x <= FX && -FX <= light.y <= FX && -FX <= light.z <= FX,
        old(fb).wf(),
        old(db).wf(),
        old(fb).width == old(db).width,
        old(fb).height == old(db).height,
        old(fb).width <= MAX_DIM,
        old(fb).height <= MAX_DIM,
        x < old(fb).width,
        y < old(fb).height,
    ensures
        final(fb).wf(),
        final(db).wf(),
        final(fb).width == old(fb).width,
        final(fb).height == old(fb).height,
        final(db).width == old(db).width,
        final(db).height == old(db).height,
        ({
            let i = pix(old(fb).width as int, x as int, y as int);
            let res = pixel_after(
                *s,
                *mat,
                x as int,
                y as int,
                old(fb).grid()[i],
                old(db).grid()[i],
            );
            final(fb).grid() =~= old(fb).grid().update(i, res.0) && final(db).grid() =~= old(
                db,
            ).grid().update(i, res.1)
        }),
{
    let ghost i = pix(old(fb).width as int, x as int, y as int);
    proof {
        lemma_pix_in_range(old(fb).width as int, old(fb).height as int, x as int, y as int);
    }
    let pcx: i64 = (x as i64) * FX + HALF_FX;
    let pcy: i64 = (y as i64) * FX + HALF_FX;
    proof {
        assert(pcx == px_center(x as int));
        assert(pcy == px_center(y as int));
    }
    let p = Fx2 { x: pcx, y: pcy };
    let sv0 = Fx2 { x: s.v0.sx, y: s.v0.sy };
    let sv1 = Fx2 { x: s.v1.sx, y: s.v1.sy };
    let sv2 = Fx2 { x: s.v2.sx, y: s.v2.sy };
    let a0 = edge_function(sv1, sv2, p);
    let a1 = edge_function(sv2, sv0, p);
    let a2 = edge_function(sv0, sv1, p);
    if a0 > 0 && a1 > 0 && a2 > 0 {
        proof {
            lemma_edge_sum(
                s.v0.sx as int,
                s.v0.sy as int,
                s.v1.sx as int,
                s.v1.sy as int,
                s.v2.sx as int,
                s.v2.sy as int,
                pcx as int,
                pcy as int,
            );
        }
        let area = edge_function(sv0, sv1, sv2);
        let b0 = bary_div(a0, area);
        let b1 = bary_div(a1, area);
        let b2 = bary_div(a2, area);
        proof {
            assert(b0 == pixel_bary(*s, x as int, y as int).0);
            assert(b1 == pixel_bary(*s, x as int, y as int).1);
            assert(b2 == pixel_bary(*s, x as int, y as int).2);
            lemma_bary_product(b0 as int, s.v0.z as int);
            lemma_bary_product(b1 as int, s.v1.z as int);
            lemma_bary_product(b2 as int, s.v2.z as int);
            lemma_bary_product(b0 as int, s.v0.inv_w as int);
            lemma_bary_product(b1 as int, s.v1.inv_w as int);
            lemma_bary_product(b2 as int, s.v2.inv_w as int);
        }
        let zw: i128 = b0 * (s.v0.z as i128) + b1 * (s.v1.z as i128) + b2 * (s.v2.z as i128);
        proof {
            lemma_tdiv_shrinks(zw as int, FX as int);
        }
        let z: i64 = div_fx(zw, FX as i128) as i64;
        let denom: i128 = b0 * (s.v0.inv_w as i128) + b1 * (s.v1.inv_w as i128) + b2 * (
        s.v2.inv_w as i128);
        proof {
            assert(z == pixel_z(*s, x as int, y as int));
            assert(denom == pixel_denom(*s, x as int, y as int));
        }
        if denom != 0 {
            let depth = db.get_pixel(x, y);
            if z < depth {
                db.set_pixel(x, y, z);
                let nx = correct_attr(b0, b1, b2, s, s.n0.x, s.n1.x, s.n2.x, denom);
                let ny = correct_attr(b0, b1, b2, s, s.n0.y, s.n1.y, s.n2.y, denom);
                let nz = correct_attr(b0, b1, b2, s, s.n0.z, s.n1.z, s.n2.z, denom);
                let n = normalize_fx(Fx3 { x: nx, y: ny, z: nz });
                let it = lambert_exec(n, light);
                proof {
                    assert(n == pixel_normal(*s, x as int, y as int));
                    assert(it == pixel_intensity(*s, x as int, y as int));
                }
                let u = correct_attr(b0, b1, b2, s, s.uv0.x, s.uv1.x, s.uv2.x, denom);
                let v = correct_attr(b0, b1, b2, s, s.uv0.y, s.uv1.y, s.uv2.y, denom);
                proof {
                    assert(Fx2 { x: u, y: v } == pixel_uv(*s, x as int, y as int));
                }
                let base = match &mat.base_color_texture {
                    Some(t) => {
                        let sm = t.sample_pixel(u, v);
                        Fx4 {
                            x: modulate_exec(mat.base_color.x, sm.x),
                            y: modulate_exec(mat.base_color.y, sm.y),
                            z: modulate_exec(mat.base_color.z, sm.z),
                            w: modulate_exec(mat.base_color.w, sm.w),
                        }
                    },
                    None => mat.base_color,
                };
                proof {
                    assert(base == pixel_base(*s, *mat, x as int, y as int));
                }
                let lit = Fx3 {
                    x: modulate_exec(base.x, it),
                    y: modulate_exec(base.y, it),
                    z: modulate_exec(base.z, it),
                };
                proof {
                    assert(lit == pixel_color(*s, *mat, x as int, y as int));
                }
                fb.set_pixel(x, y, lit);
            } else {
                proof {
                    lemma_self_update(old(fb).grid(), i);
                    lemma_self_update(old(db).grid(), i);
                }
            }
        } else {
            proof {
                lemma_self_update(old(fb).grid(), i);
                lemma_self_update(old(db).grid(), i);
            }
        }
    } else {
        proof {
            lemma_self_update(old(fb).grid(), i);
            lemma_self_update(old(db).grid(), i);
        }
    }
}

/// The smaller of two values.
pub open spec fn imin(a: int, b: int) -> int {
    if a <= b {
        a
    } else {
        b
    }
}

/// The larger of two values.
pub open spec fn imax(a: int, b: int) -> int {
    if a >= b {
        a
    } else {
        b
    }
}

/// First pixel column of the bounding box: the smallest screen x, clamped
/// into the screen, truncated to a column. (Clamping the low edge to the
/// screen width leaves the walked range empty exactly when it would be
/// empty anyway, since the high edge is clamped there too.)
pub open spec fn bbox_x0(s: TriSetup, w: int) -> int {
    tdiv(imin(imax(imin(s.v0.sx as int, imin(s.v1.sx as int, s.v2.sx as int)), 0), w * FX), FX as int)
}

/// First pixel row of the bounding box.
pub open spec fn bbox_y0(s: TriSetup, h: int) -> int {
    tdiv(imin(imax(imin(s.v0.sy as int, imin(s.v1.sy as int, s.v2.sy as int)), 0), h * FX), FX as int)
}

/// One past the last column: the largest screen x plus one pixel, clamped
/// to the screen width; the one-pixel bias keeps the far edge inclusive
/// under pixel-center sampling.
pub open spec fn bbox_x1(s: TriSetup, w: int) -> int {
    let m = imin(imax(s.v0.sx as int, imax(s.v1.sx as int, s.v2.sx as int)) + FX, w * FX);
    if m < 0 {
        0
    } else {
        tdiv(m, FX as int)
    }
}

/// One past the last row.
pub open spec fn bbox_y1(s: TriSetup, h: int) -> int {
    let m = imin(imax(s.v0.sy as int, imax(s.v1.sy as int, s.v2.sy as int)) + FX, h * FX);
    if m < 0 {
        0
    } else {
        tdiv(m, FX as int)
    }
}

/// Whether pixel `(x, y)` lies in the triangle's clamped bounding box —
/// the pixels the rasterization loop walks.
pub open spec fn in_bbox(s: TriSetup, w: int, h: int, x: int, y: int) -> bool {
    bbox_x0(s, w) <= x < bbox_x1(s, w) && bbox_y0(s, h) <= y < bbox_y1(s, h)
}

/// The color grid after one triangle: every bounding-box pixel goes
/// through coverage, depth test and shading against the buffers as the
/// triangle found them; every other pixel keeps its color.
pub open spec fn raster_tri_color(
    s: TriSetup,
    mat: Material,
    w: int,
    h: int,
    fb0: Seq<Fx3>,
    db0: Seq<i64>,
) -> Seq<Fx3> {
    Seq::new(
        fb0.len(),
        |i: int|
            {
                let x = i % w;
                let y = i / w;
                if in_bbox(s, w, h, x, y) {
                    pixel_after(s, mat, x, y, fb0[i], db0[i]).0
                } else {
                    fb0[i]
                }
            },
    )
}

/// The depth grid after one triangle.
pub open spec fn raster_tri_depth(
    s: TriSetup,
    mat: Material,
    w: int,
    h: int,
    fb0: Seq<Fx3>,
    db0: Seq<i64>,
) -> Seq<i64> {
    Seq::new(
        db0.len(),
        |i: int|
            {
                let x = i % w;
                let y = i / w;
                if in_bbox(s, w, h, x, y) {
                    pixel_after(s, mat, x, y, fb0[i], db0[i]).1
                } else {
                    db0[i]
                }
            },
    )
}

/// Both buffers after one triangle of three vertices: unchanged where a
/// vertex has no finite projection, else rasterized pointwise.
pub open spec fn draw_tri_on(
    v0: Vertex,
    v1: Vertex,
    v2: Vertex,
    mvp: Mat4Fx,
    itm: Mat4Fx,
    mat: Material,
    w: int,
    h: int,
    fb0: Seq<Fx3>,
    db0: Seq<i64>,
) -> (Seq<Fx3>, Seq<i64>) {
    match tri_setup_spec(v0, v1, v2, mvp, itm, w, h) {
        None => (fb0, db0),
        Some(s) => (
            raster_tri_color(s, mat, w, h, fb0, db0),
            raster_tri_depth(s, mat, w, h, fb0, db0),
        ),
    }
}

/// A flat index splits back into its pixel coordinates.
pub proof fn lemma_pix_decompose(w: int, x: int, y: int)
    requires
        0 <= x < w,
        0 <= y,
    ensures
        pix(w, x, y) % w == x,
        pix(w, x, y) / w == y,
{
    vstd::arithmetic::div_mod::lemma_fundamental_div_mod_converse(y * w + x, w, y, x);
}

/// A pixel within the screen has its flat index within the grid.
pub proof fn lemma_pix_in_range(w: int, h: int, x: int, y: int)
    requires
        0 <= x < w,
        0 <= y < h,
    ensures
        0 <= pix(w, x, y) < w * h,
{
    assert(0 <= y * w + x < w * h) by (nonlinear_arith)
        requires
            0 <= x < w,
            0 <= y < h,
    ;
}

/// Putting a sequence's own value back leaves the sequence as it was.
proof fn lemma_self_update<T>(s: Seq<T>, i: int)
    requires
        0 <= i < s.len(),
    ensures
        s.update(i, s[i]) =~= s,
{
}

/// The smaller of two fixed-point values.
fn min_i64(a: i64, b: i64) -> (r: i64)
    ensures
        r == imin(a as int, b as int),
{
    if a <= b {
        a
    } else {
        b
    }
}

/// The larger of two fixed-point values.
fn max_i64(a: i64, b: i64) -> (r: i64)
    ensures
        r == imax(a as int, b as int),
{
    if a >= b {
        a
    } else {
        b
    }
}

/// A nonnegative fixed-point coordinate truncated to its pixel index.
fn floor_px(m: i64) -> (r: usize)
    requires
        0 <= m <= 0x8000_0000,
    ensures
        r == tdiv(m as int, FX as int),
{
    ((m as u64) / (FX as u64)) as usize
}

/// The clamped integer bounding box of a triangle on a `w` by `h` screen:
/// `(x0, x1, y0, y1)`, columns `x0..x1` and rows `y0..y1`.
fn bbox_exec(s: &TriSetup, w: usize, h: usize) -> (r: (usize, usize, usize, usize))
    requires
        setup_wf(*s),
        w <= MAX_DIM,
        h <= MAX_DIM,
    ensures
        r.0 == bbox_x0(*s, w as int),
        r.1 == bbox_x1(*s, w as int),
        r.2 == bbox_y0(*s, h as int),
        r.3 == bbox_y1(*s, h as int),
        r.0 <= w,
        r.1 <= w,
        r.2 <= h,
        r.3 <= h,
{
    let wfx: i64 = (w as i64) * FX;
    let hfx: i64 = (h as i64) * FX;
    let min_x = min_i64(s.v0.sx, min_i64(s.v1.sx, s.v2.sx));
    let max_x = max_i64(s.v0.sx, max_i64(s.v1.sx, s.v2.sx));
    let min_y = min_i64(s.v0.sy, min_i64(s.v1.sy, s.v2.sy));
    let max_y = max_i64(s.v0.sy, max_i64(s.v1.sy, s.v2.sy));
    let x0 = floor_px(min_i64(max_i64(min_x, 0), wfx));
    let y0 = floor_px(min_i64(max_i64(min_y, 0), hfx));
    let m1x = min_i64(max_x + FX, wfx);
    let m1y = min_i64(max_y + FX, hfx);
    let x1 = if m1x < 0 {
        0
    } else {
        floor_px(m1x)
    };
    let y1 = if m1y < 0 {
        0
    } else {
        floor_px(m1y)
    };
    proof {
        lemma_tdiv_multiple(w as int, FX as int);
        lemma_tdiv_multiple(h as int, FX as int);
        lemma_tdiv_ordered(imin(imax(imin(s.v0.sx as int, imin(s.v1.sx as int, s.v2.sx as int)), 0), w as int * FX), w as int * FX, FX as int);
        lemma_tdiv_ordered(imin(imax(imin(s.v0.sy as int, imin(s.v1.sy as int, s.v2.sy as int)), 0), h as int * FX), h as int * FX, FX as int);
        if m1x >= 0 {
            lemma_tdiv_ordered(m1x as int, w as int * FX, FX as int);
        }
        if m1y >= 0 {
            lemma_tdiv_ordered(m1y as int, h as int * FX, FX as int);
        }
    }
    (x0, x1, y0, y1)
}

/// A flat index within a `w` by `h` grid splits into a column below `w`
/// and a row below `h`.
pub proof fn lemma_flat_bounds(w: int, h: int, i: int)
    requires
        w > 0,
        0 <= i < w * h,
    ensures
        0 <= i % w < w,
        0 <= i / w < h,
        i == pix(w, i % w, i / w),
{
    vstd::arithmetic::div_mod::lemma_fundamental_div_mod(i, w);
    vstd::arithmetic::div_mod::lemma_mod_bound(i, w);
    vstd::arithmetic::div_mod::lemma_div_pos_is_pos(i, w);
    assert(w * (i / w) == (i / w) * w) by (nonlinear_arith);
    if i / w >= h {
        assert((i / w) * w >= h * w) by (nonlinear_arith)
            requires
                i / w >= h,
                w > 0,
        ;
        assert(h * w == w * h) by (nonlinear_arith);
    }
}

/// What one cell of the color grid holds part way through a triangle's
/// raster walk: columns before `dx` are fully processed, column `dx` is
/// processed up to row `dy`.
pub open spec fn cell_color(
    s: TriSetup,
    mat: Material,
    w: int,
    h: int,
    dx: int,
    dy: int,
    i: int,
    fb0: Seq<Fx3>,
    db0: Seq<i64>,
) -> Fx3 {
    let px = i % w;
    let py = i / w;
    if in_bbox(s, w, h, px, py) && (px < dx || (px == dx && py < dy)) {
        pixel_after(s, mat, px, py, fb0[i], db0[i]).0
    } else {
        fb0[i]
    }
}

/// What one cell of the depth grid holds part way through the walk.
pub open spec fn cell_depth(
    s: TriSetup,
    mat: Material,
    w: int,
    h: int,
    dx: int,
    dy: int,
    i: int,
    fb0: Seq<Fx3>,
    db0: Seq<i64>,
) -> i64 {
    let px = i % w;
    let py = i / w;
    if in_bbox(s, w, h, px, py) && (px < dx || (px == dx && py < dy)) {
        pixel_after(s, mat, px, py, fb0[i], db0[i]).1
    } else {
        db0[i]
    }
}

/// At a covered pixel of a well-formed setup, the barycentric weights lie
/// in `[0, FX]` and the interpolated depth lies within three guard bands,
/// so it fits its machine integer exactly.
pub proof fn lemma_pixel_z_bounds(s: TriSetup, x: int, y: int)
    requires
        setup_wf(s),
        pixel_covered(s, x, y),
    ensures
        0 <= pixel_bary(s, x, y).0 <= FX,
        0 <= pixel_bary(s, x, y).1 <= FX,
        0 <= pixel_bary(s, x, y).2 <= FX,
        -3 * (GUARD as int) <= pixel_z(s, x, y) <= 3 * (GUARD as int),
{
    lemma_edge_sum(
        s.v0.sx as int,
        s.v0.sy as int,
        s.v1.sx as int,
        s.v1.sy as int,
        s.v2.sx as int,
        s.v2.sy as int,
        px_center(x),
        px_center(y),
    );
    let area = tri_area2(s);
    let a0 = pixel_a0(s, x, y);
    let a1 = pixel_a1(s, x, y);
    let a2 = pixel_a2(s, x, y);
    lemma_bary_in_unit(a0, area);
    lemma_bary_in_unit(a1, area);
    lemma_bary_in_unit(a2, area);
    let b0 = pixel_bary(s, x, y).0;
    let b1 = pixel_bary(s, x, y).1;
    let b2 = pixel_bary(s, x, y).2;
    lemma_bary_product(b0, s.v0.z as int);
    lemma_bary_product(b1, s.v1.z as int);
    lemma_bary_product(b2, s.v2.z as int);
    let zw = b0 * s.v0.z + b1 * s.v1.z + b2 * s.v2.z;
    lemma_tdiv_ordered(zw, (3 * 0x1_0000 * 0x10_0000_0000) as int, FX as int);
    lemma_tdiv_ordered(-((3 * 0x1_0000 * 0x10_0000_0000) as int), zw, FX as int);
    assert(tdiv((3 * 0x1_0000 * 0x10_0000_0000) as int, FX as int) == 3 * (GUARD as int));
    assert(tdiv(-((3 * 0x1_0000 * 0x10_0000_0000) as int), FX as int) == -(3 * (GUARD as int)));
}

/// A positive edge weight below the full area normalizes into `[0, FX]`.
proof fn lemma_bary_in_unit(a: int, area: int)
    requires
        0 < a,
        a < area,
    ensures
        0 <= tdiv(a * FX, area) <= FX,
{
    assert(0 <= a * FX && a * FX <= (FX as int) * area) by (nonlinear_arith)
        requires
            0 < a <= area,
            FX > 0,
    ;
    lemma_tdiv_ordered(0, a * FX, area);
    lemma_tdiv_ordered(a * FX, (FX as int) * area, area);
    lemma_tdiv_multiple(FX as int, area);
}

/// One triangle, ready to draw.
pub struct Triangle {
    pub vertex: [Vertex; 3],
}

impl Triangle {
    /// Rasterize this triangle into the color and depth buffers: project
    /// the vertices, walk the clamped screen-space bounding box, and give
    /// every pixel in it the coverage test, the depth test, and on a pass
    /// the depth write and the shaded color write. Pixels outside the box
    /// keep their values, and a triangle with a vertex at w equal to zero
    /// draws nothing.
    pub fn draw(
        &self,
        framebuffer: &mut crate::framebuffer::Framebuffer<Fx3>,
        depth_buffer: &mut crate::framebuffer::Framebuffer<i64>,
        mvp: Mat4Fx,
        inv_trans_model_matrix: Mat4Fx,
        material: &Material,
    )
        requires
            self.vertex[0].wf(),
            self.vertex[1].wf(),
            self.vertex[2].wf(),
            mat_wf(mvp),
            mat_wf(inv_trans_model_matrix),
            material.wf(),
            old(framebuffer).wf(),
            old(depth_buffer).wf(),
            old(framebuffer).width == old(depth_buffer).width,
            old(framebuffer).height == old(depth_buffer).height,
            old(framebuffer).width <= MAX_DIM,
            old(framebuffer).height <= MAX_DIM,
        ensures
            final(framebuffer).wf(),
            final(depth_buffer).wf(),
            final(framebuffer).width == old(framebuffer).width,
            final(framebuffer).height == old(framebuffer).height,
            final(depth_buffer).width == old(depth_buffer).width,
            final(depth_buffer).height == old(depth_buffer).height,
            ({
                let r = draw_tri_on(
                    self.vertex[0],
                    self.vertex[1],
                    self.vertex[2],
                    mvp,
                    inv_trans_model_matrix,
                    *material,
                    old(framebuffer).width as int,
                    old(framebuffer).height as int,
                    old(framebuffer).grid(),
                    old(depth_buffer).grid(),
                );
                final(framebuffer).grid() =~= r.0 && final(depth_buffer).grid() =~= r.1
            }),
    {
        let w = framebuffer.width();
        let h = framebuffer.height();
        let ghost wi = w as int;
        let ghost hi = h as int;
        let ghost fb0 = old(framebuffer).grid();
        let ghost db0 = old(depth_buffer).grid();
        let setup = tri_setup(
            &self.vertex[0],
            &self.vertex[1],
            &self.vertex[2],
            &mvp,
            &inv_trans_model_matrix,
            w,
            h,
        );
        match setup {
            None => {},
            Some(s) => {
                let light = normalize_fx(Fx3 { x: 19661, y: -52429, z: -26214 });
                let (x0, x1, y0, y1) = bbox_exec(&s, w, h);
                let mut x = x0;
                while x < x1
                    invariant
                        setup_wf(s),
                        material.wf(),
                        light == light_vec(),
                        -FX <= light.x <= FX && -FX <= light.y <= FX && -FX <= light.z <= FX,
                        framebuffer.wf(),
                        depth_buffer.wf(),
                        framebuffer.width == w,
                        framebuffer.height == h,
                        depth_buffer.width == w,
                        depth_buffer.height == h,
                        w <= MAX_DIM,
                        h <= MAX_DIM,
                        wi == w as int,
                        hi == h as int,
                        fb0.len() == wi * hi,
                        db0.len() == wi * hi,
                        x0 == bbox_x0(s, wi),
                        x1 == bbox_x1(s, wi),
                        y0 == bbox_y0(s, hi),
                        y1 == bbox_y1(s, hi),
                        x1 <= w,
                        y1 <= h,
                        x0 <= x,
                        forall|i: int|
                            #![trigger fb0[i]]
                            0 <= i < fb0.len() ==> framebuffer.grid()[i] == cell_color(
                                s,
                                *material,
                                wi,
                                hi,
                                x as int,
                                y0 as int,
                                i,
                                fb0,
                                db0,
                            ),
                        forall|i: int|
                            #![trigger db0[i]]
                            0 <= i < db0.len() ==> depth_buffer.grid()[i] == cell_depth(
                                s,
                                *material,
                                wi,
                                hi,
                                x as int,
                                y0 as int,
                                i,
                                fb0,
                                db0,
                            ),
                    decreases x1 - x,
                {
                    let mut y = y0;
                    while y < y1
                        invariant
                            setup_wf(s),
                            material.wf(),
                            light == light_vec(),
                            -FX <= light.x <= FX && -FX <= light.y <= FX && -FX <= light.z <= FX,
                            framebuffer.wf(),
                            depth_buffer.wf(),
                            framebuffer.width == w,
                            framebuffer.height == h,
                            depth_buffer.width == w,
                            depth_buffer.height == h,
                            w <= MAX_DIM,
                            h <= MAX_DIM,
                            wi == w as int,
                            hi == h as int,
                            fb0.len() == wi * hi,
                            db0.len() == wi * hi,
                            x0 == bbox_x0(s, wi),
                            x1 == bbox_x1(s, wi),
                            y0 == bbox_y0(s, hi),
                            y1 == bbox_y1(s, hi),
                            x1 <= w,
                            y1 <= h,
                            x0 <= x < x1,
                            y0 <= y,
                            forall|i: int|
                                #![trigger fb0[i]]
                                0 <= i < fb0.len() ==> framebuffer.grid()[i] == cell_color(
                                    s,
                                    *material,
                                    wi,
                                    hi,
                                    x as int,
                                    y as int,
                                    i,
                                    fb0,
                                    db0,
                                ),
                            forall|i: int|
                                #![trigger db0[i]]
                                0 <= i < db0.len() ==> depth_buffer.grid()[i] == cell_depth(
                                    s,
                                    *material,
                                    wi,
                                    hi,
                                    x as int,
                                    y as int,
                                    i,
                                    fb0,
                                    db0,
                                ),
                        decreases y1 - y,
                    {
                        let ghost fb_before = framebuffer.grid();
                        let ghost db_before = depth_buffer.grid();
                        proof {
                            lemma_pix_in_range(wi, hi, x as int, y as int);
                            lemma_pix_decompose(wi, x as int, y as int);
                        }
                        pixel_step(&s, material, light, x, y, framebuffer, depth_buffer);
                        proof {
                            let t = pix(wi, x as int, y as int);
                            assert(fb_before[t] == fb0[t]);
                            assert(db_before[t] == db0[t]);
                            assert forall|i: int|
                                #![trigger fb0[i]]
                                0 <= i < fb0.len() implies framebuffer.grid()[i] == cell_color(
                                s,
                                *material,
                                wi,
                                hi,
                                x as int,
                                y as int + 1,
                                i,
                                fb0,
                                db0,
                            ) by {
                                lemma_flat_bounds(wi, hi, i);
                                // Name the stored cell so the walk
                                // invariant instantiates at this index.
                                assert(fb0[i] == fb0[i]);
                            }
                            assert forall|i: int|
                                #![trigger db0[i]]
                                0 <= i < db0.len() implies depth_buffer.grid()[i] == cell_depth(
                                s,
                                *material,
                                wi,
                                hi,
                                x as int,
                                y as int + 1,
                                i,
                                fb0,
                                db0,
                            ) by {
                                lemma_flat_bounds(wi, hi, i);
                                assert(fb0[i] == fb0[i]);
                            }
                        }
                        y = y + 1;
                    }
                    proof {
                        assert forall|i: int|
                            #![trigger fb0[i]]
                            0 <= i < fb0.len() implies framebuffer.grid()[i] == cell_color(
                            s,
                            *material,
                            wi,
                            hi,
                            x as int + 1,
                            y0 as int,
                            i,
                            fb0,
                            db0,
                        ) by {
                            lemma_flat_bounds(wi, hi, i);
                        }
                        assert forall|i: int|
                            #![trigger db0[i]]
                            0 <= i < db0.len() implies depth_buffer.grid()[i] == cell_depth(
                            s,
                            *material,
                            wi,
                            hi,
                            x as int + 1,
                            y0 as int,
                            i,
                            fb0,
                            db0,
                        ) by {
                            lemma_flat_bounds(wi, hi, i);
                            // Name the stored cell so the walk invariant
                            // instantiates at this index.
                            assert(fb0[i] == fb0[i]);
                        }
                    }
                    x = x + 1;
                }
                proof {
                    let rc = raster_tri_color(s, *material, wi, hi, fb0, db0);
                    let rd = raster_tri_depth(s, *material, wi, hi, fb0, db0);
                    assert forall|i: int| #![trigger rc[i]] 0 <= i < fb0.len() implies framebuffer.grid()[i]
                        == rc[i] by {
                        lemma_flat_bounds(wi, hi, i);
                        // Name the stored cell so the walk invariant
                        // instantiates at this index.
                        assert(fb0[i] == fb0[i]);
                    }
                    assert forall|i: int| #![trigger rd[i]] 0 <= i < db0.len() implies depth_buffer.grid()[i]
                        == rd[i] by {
                        lemma_flat_bounds(wi, hi, i);
                        // Name the stored cells so the walk invariants
                        // instantiate at this index.
                        assert(fb0[i] == fb0[i]);
                        assert(db0[i] == db0[i]);
                    }
                    assert(framebuffer.grid() =~= rc);
                    assert(depth_buffer.grid() =~= rd);
                }
            },
        }
    }
}

/// A barycentric weight in `[0, FX]` times a bounded factor stays within
/// `FX * GUARD`.
proof fn lemma_bary_product(b: int, q: int)
    requires
        0 <= b <= FX,
        -GUARD <= q <= GUARD,
    ensures
        -0x1_0000 * 0x10_0000_0000 <= b * q <= 0x1_0000 * 0x10_0000_0000,
{
    assert(-0x1_0000 * 0x10_0000_0000 <= b * q <= 0x1_0000 * 0x10_0000_0000) by (nonlinear_arith)
        requires
            0 <= b <= 0x1_0000,
            -0x10_0000_0000 <= q <= 0x10_0000_0000,
    ;
}

} // verus!
