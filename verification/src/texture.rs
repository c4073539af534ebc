//! Decoded images with normalized-coordinate point and bilinear sampling.
//!
//! A texture stores RGBA8 bytes, row-major with row 0 on top. Sampling
//! takes fixed-point coordinates, `FX` units meaning 1.0. Nearest-tap
//! addressing wraps with a modulus of `dimension - 1`, a deliberate quirk
//! kept from the addressing convention this renderer commits to (a
//! one-texel dimension, where that modulus vanishes, reads the only
//! texel). Channels come back as fixed-point values, `byte * FX / 255`.

use vstd::prelude::*;
use crate::fx::{
    FX, Fx4, tdiv, abs, div_fx, lemma_tdiv_ordered, lemma_tdiv_multiple, lemma_tdiv_remainder,
    lemma_tdiv_product_bound,
};

verus! {

/// An RGBA8 image of fixed size, immutable once built.
pub struct Texture {
    pub data: Vec<u8>,
    pub width: u32,
    pub height: u32,
}

/// A byte channel as a fixed-point value in `[0, FX]`.
pub open spec fn byte_fx(b: int) -> int {
    tdiv(b * FX, 255)
}

/// Linear interpolation from `a` toward `b` by the fixed-point weight `t`.
pub open spec fn lerp_fx(a: int, b: int, t: int) -> int {
    a + tdiv((b - a) * t, FX as int)
}

/// Channel-wise interpolation of two colors.
pub open spec fn lerp4(a: Fx4, b: Fx4, t: int) -> Fx4 {
    Fx4 {
        x: lerp_fx(a.x as int, b.x as int, t) as i64,
        y: lerp_fx(a.y as int, b.y as int, t) as i64,
        z: lerp_fx(a.z as int, b.z as int, t) as i64,
        w: lerp_fx(a.w as int, b.w as int, t) as i64,
    }
}

/// The texel index a fixed-point coordinate addresses along one axis:
/// scale by the dimension, truncate (negatives saturate to zero), then
/// wrap with a modulus of `dim - 1` where the dimension allows one.
pub open spec fn wrap_coord(c: int, dim: int) -> int
    recommends
        dim >= 1,
{
    let scaled = tdiv(c * dim, FX as int);
    let clamped = if scaled < 0 {
        0int
    } else {
        scaled
    };
    if dim > 1 {
        clamped % (dim - 1)
    } else {
        0
    }
}

impl Texture {
    /// The bytes hold exactly one RGBA quadruple per texel.
    pub open spec fn wf(&self) -> bool {
        &&& self.width >= 1
        &&& self.height >= 1
        &&& self.data@.len() == 4 * self.width * self.height
    }

    /// The color stored at texel `(ix, iy)`, channels as fixed-point values.
    pub open spec fn texel(&self, ix: int, iy: int) -> Fx4
        recommends
            self.wf(),
            0 <= ix < self.width,
            0 <= iy < self.height,
    {
        let base = 4 * (iy * self.width + ix);
        Fx4 {
            x: byte_fx(self.data@[base] as int) as i64,
            y: byte_fx(self.data@[base + 1] as int) as i64,
            z: byte_fx(self.data@[base + 2] as int) as i64,
            w: byte_fx(self.data@[base + 3] as int) as i64,
        }
    }

    /// The nearest tap at fixed-point coordinates `(u, v)`.
    pub open spec fn tap(&self, u: int, v: int) -> Fx4
        recommends
            self.wf(),
    {
        self.texel(wrap_coord(u, self.width as int), wrap_coord(v, self.height as int))
    }

    /// The bilinear filter: four taps one texel apart, blended first
    /// horizontally, then vertically, by the truncated fractional parts of
    /// the scaled coordinates.
    pub open spec fn sample_spec(&self, u: int, v: int) -> Fx4
        recommends
            self.wf(),
    {
        let du = (FX as int) / (self.width as int);
        let dv = (FX as int) / (self.height as int);
        let tl = self.tap(u - du, v - dv);
        let bl = self.tap(u - du, v + dv);
        let br = self.tap(u + du, v + dv);
        let tr = self.tap(u + du, v - dv);
        let sx = u * self.width;
        let sy = v * self.height;
        let dx = sx - tdiv(sx, FX as int) * (FX as int);
        let dy = sy - tdiv(sy, FX as int) * (FX as int);
        let bottom = lerp4(bl, br, dx);
        let top = lerp4(tl, tr, dx);
        lerp4(top, bottom, dy)
    }

    /// Wrap a decoded RGBA8 byte array of the given size.
    pub fn new(data: Vec<u8>, width: u32, height: u32) -> (t: Texture)
        requires
            width >= 1,
            height >= 1,
            data@.len() == 4 * width * height,
        ensures
            t.wf(),
            t.data == data,
            t.width == width,
            t.height == height,
    {
        Texture { data, width, height }
    }

    /// Read the nearest texel to `(u, v)` under the wrap-around addressing.
    pub fn get_pixel(&self, u: i64, v: i64) -> (c: Fx4)
        requires
            self.wf(),
        ensures
            c == self.tap(u as int, v as int),
            0 <= c.x <= FX && 0 <= c.y <= FX && 0 <= c.z <= FX && 0 <= c.w <= FX,
    {
        let ix: u64 = wrap_exec(u, self.width);
        let iy: u64 = wrap_exec(v, self.height);
        let total: usize = self.data.len();
        proof {
            assert(4 * (iy * self.width + ix) + 3 < 4 * self.width * self.height)
                by (nonlinear_arith)
                requires
                    ix < self.width,
                    iy < self.height,
            ;
        }
        let base: usize = (4 * (iy * (self.width as u64) + ix)) as usize;
        Fx4 {
            x: byte_to_fx(self.data[base]),
            y: byte_to_fx(self.data[base + 1]),
            z: byte_to_fx(self.data[base + 2]),
            w: byte_to_fx(self.data[base + 3]),
        }
    }

    /// Bilinear sample at `(u, v)`. For coordinates at or above zero —
    /// the normalized range included — every channel of the result stays
    /// within `[0, FX]`.
    pub fn sample_pixel(&self, u: i64, v: i64) -> (c: Fx4)
        requires
            self.wf(),
            -0x4000_0000_0000_0000 <= u <= 0x4000_0000_0000_0000,
            -0x4000_0000_0000_0000 <= v <= 0x4000_0000_0000_0000,
        ensures
            c == self.sample_spec(u as int, v as int),
            u >= 0 && v >= 0 ==> 0 <= c.x <= FX && 0 <= c.y <= FX && 0 <= c.z <= FX && 0 <= c.w
                <= FX,
            -4 * FX <= c.x <= 5 * FX && -4 * FX <= c.y <= 5 * FX && -4 * FX <= c.z <= 5 * FX && -4
                * FX <= c.w <= 5 * FX,
    {
        let du: i64 = (FX as u32 / self.width) as i64;
        let dv: i64 = (FX as u32 / self.height) as i64;
        let tl = self.get_pixel(u - du, v - dv);
        let bl = self.get_pixel(u - du, v + dv);
        let br = self.get_pixel(u + du, v + dv);
        let tr = self.get_pixel(u + du, v - dv);

        proof {
            assert(-0x4000_0000_0000_0000_0000_0000 <= (u as int) * (self.width as int)
                <= 0x4000_0000_0000_0000_0000_0000) by (nonlinear_arith)
                requires
                    -0x4000_0000_0000_0000 <= u <= 0x4000_0000_0000_0000,
                    0 <= self.width <= 0x1_0000_0000,
            ;
            assert(-0x4000_0000_0000_0000_0000_0000 <= (v as int) * (self.height as int)
                <= 0x4000_0000_0000_0000_0000_0000) by (nonlinear_arith)
                requires
                    -0x4000_0000_0000_0000 <= v <= 0x4000_0000_0000_0000,
                    0 <= self.height <= 0x1_0000_0000,
            ;
        }
        let sx: i128 = (u as i128) * (self.width as i128);
        let sy: i128 = (v as i128) * (self.height as i128);
        let xi: i128 = div_fx(sx, FX as i128);
        let yi: i128 = div_fx(sy, FX as i128);
        proof {
            crate::fx::lemma_tdiv_shrinks(sx as int, FX as int);
            crate::fx::lemma_tdiv_shrinks(sy as int, FX as int);
            assert(-0x4000_0000_0000_0000_0000_0000 * 0x1_0000 <= (xi as int) * (FX as int)
                <= 0x4000_0000_0000_0000_0000_0000 * 0x1_0000) by (nonlinear_arith)
                requires
                    -0x4000_0000_0000_0000_0000_0000 <= xi <= 0x4000_0000_0000_0000_0000_0000,
                    FX == 0x1_0000,
            ;
            assert(-0x4000_0000_0000_0000_0000_0000 * 0x1_0000 <= (yi as int) * (FX as int)
                <= 0x4000_0000_0000_0000_0000_0000 * 0x1_0000) by (nonlinear_arith)
                requires
                    -0x4000_0000_0000_0000_0000_0000 <= yi <= 0x4000_0000_0000_0000_0000_0000,
                    FX == 0x1_0000,
            ;
            lemma_tdiv_remainder(sx as int, FX as int);
            lemma_tdiv_remainder(sy as int, FX as int);
        }
        let dx: i64 = (sx - xi * (FX as i128)) as i64;
        let dy: i64 = (sy - yi * (FX as i128)) as i64;

        let bottom = lerp4_exec(bl, br, dx);
        let top = lerp4_exec(tl, tr, dx);
        let c = lerp4_exec(top, bottom, dy);
        proof {
            if u >= 0 && v >= 0 {
                lemma_lerp4_in_unit(bl, br, dx as int);
                lemma_lerp4_in_unit(tl, tr, dx as int);
                lemma_lerp4_in_unit(lerp4(tl, tr, dx as int), lerp4(bl, br, dx as int), dy as int);
            }
        }
        c
    }
}

/// One byte channel scaled to fixed point.
fn byte_to_fx(b: u8) -> (r: i64)
    ensures
        r == byte_fx(b as int),
        0 <= r <= FX,
{
    proof {
        lemma_tdiv_ordered(b as int * FX, 255 * FX, 255);
        lemma_tdiv_multiple(FX as int, 255);
        assert(b as int * FX <= 255 * FX) by (nonlinear_arith)
            requires
                b <= 255,
                FX > 0,
        ;
        assert(255 * FX == FX as int * 255) by (nonlinear_arith);
    }
    ((b as u64) * (FX as u64) / 255) as i64
}

/// The texel index along one axis for a fixed-point coordinate.
fn wrap_exec(c: i64, dim: u32) -> (i: u64)
    requires
        dim >= 1,
    ensures
        i == wrap_coord(c as int, dim as int),
        i < dim,
{
    proof {
        assert(-0x8000_0000_0000_0000 * 0x1_0000_0000 <= (c as int) * (dim as int)
            <= 0x8000_0000_0000_0000 * 0x1_0000_0000) by (nonlinear_arith)
            requires
                -0x8000_0000_0000_0000 <= c <= 0x7FFF_FFFF_FFFF_FFFF,
                0 <= dim <= 0x1_0000_0000,
        ;
    }
    let scaled: i128 = (c as i128) * (dim as i128);
    let q: u128 = if scaled < 0 {
        proof {
            lemma_tdiv_ordered(scaled as int, 0, FX as int);
        }
        0
    } else {
        proof {
            lemma_tdiv_ordered(0, scaled as int, FX as int);
        }
        div_fx(scaled, FX as i128) as u128
    };
    if dim > 1 {
        let m: u128 = q % ((dim - 1) as u128);
        m as u64
    } else {
        0
    }
}

/// Interpolated channels of colors within `[0, FX]`, under a weight within
/// `[0, FX]`, stay within `[0, FX]`.
proof fn lemma_lerp_in_unit(a: int, b: int, t: int)
    requires
        0 <= a <= FX,
        0 <= b <= FX,
        0 <= t <= FX,
    ensures
        0 <= lerp_fx(a, b, t) <= FX,
{
    let d = b - a;
    lemma_tdiv_product_bound(d, t, FX as int);
    if d >= 0 {
        assert(d * t >= 0) by (nonlinear_arith)
            requires
                d >= 0,
                t >= 0,
        ;
        lemma_tdiv_ordered(0, d * t, FX as int);
    } else {
        assert(d * t <= 0) by (nonlinear_arith)
            requires
                d < 0,
                t >= 0,
        ;
        lemma_tdiv_ordered(d * t, 0, FX as int);
    }
}

/// Channel-wise form of `lemma_lerp_in_unit`.
proof fn lemma_lerp4_in_unit(a: Fx4, b: Fx4, t: int)
    requires
        0 <= a.x <= FX && 0 <= a.y <= FX && 0 <= a.z <= FX && 0 <= a.w <= FX,
        0 <= b.x <= FX && 0 <= b.y <= FX && 0 <= b.z <= FX && 0 <= b.w <= FX,
        0 <= t <= FX,
    ensures
        0 <= lerp4(a, b, t).x <= FX,
        0 <= lerp4(a, b, t).y <= FX,
        0 <= lerp4(a, b, t).z <= FX,
        0 <= lerp4(a, b, t).w <= FX,
{
    lemma_lerp_in_unit(a.x as int, b.x as int, t);
    lemma_lerp_in_unit(a.y as int, b.y as int, t);
    lemma_lerp_in_unit(a.z as int, b.z as int, t);
    lemma_lerp_in_unit(a.w as int, b.w as int, t);
}

/// One interpolated channel; the result never strays farther from `a`
/// than `b` is.
fn lerp_channel(a: i64, b: i64, t: i64) -> (r: i64)
    requires
        -0x400_0000 <= a <= 0x400_0000,
        -0x400_0000 <= b <= 0x400_0000,
        -0x1_0000 <= t <= 0x1_0000,
    ensures
        r == lerp_fx(a as int, b as int, t as int),
        a - abs(b as int - a as int) <= r <= a + abs(b as int - a as int),
{
    proof {
        assert(-0x800_0000 * 0x1_0000 <= (b as int - a as int) * (t as int) <= 0x800_0000
            * 0x1_0000) by (nonlinear_arith)
            requires
                -0x800_0000 <= b as int - a as int <= 0x800_0000,
                -0x1_0000 <= t <= 0x1_0000,
        ;
    }
    let wide: i128 = ((b - a) as i128) * (t as i128);
    let q: i128 = div_fx(wide, FX as i128);
    proof {
        lemma_tdiv_product_bound((b - a) as int, t as int, FX as int);
    }
    (a as i128 + q) as i64
}

/// Channel-wise interpolation.
fn lerp4_exec(a: Fx4, b: Fx4, t: i64) -> (r: Fx4)
    requires
        -0x400_0000 <= a.x <= 0x400_0000 && -0x400_0000 <= a.y <= 0x400_0000 && -0x400_0000 <= a.z
            <= 0x400_0000 && -0x400_0000 <= a.w <= 0x400_0000,
        -0x400_0000 <= b.x <= 0x400_0000 && -0x400_0000 <= b.y <= 0x400_0000 && -0x400_0000 <= b.z
            <= 0x400_0000 && -0x400_0000 <= b.w <= 0x400_0000,
        -0x1_0000 <= t <= 0x1_0000,
    ensures
        r == lerp4(a, b, t as int),
        a.x - abs(b.x as int - a.x as int) <= r.x <= a.x + abs(b.x as int - a.x as int),
        a.y - abs(b.y as int - a.y as int) <= r.y <= a.y + abs(b.y as int - a.y as int),
        a.z - abs(b.z as int - a.z as int) <= r.z <= a.z + abs(b.z as int - a.z as int),
        a.w - abs(b.w as int - a.w as int) <= r.w <= a.w + abs(b.w as int - a.w as int),
{
    Fx4 {
        x: lerp_channel(a.x, b.x, t),
        y: lerp_channel(a.y, b.y, t),
        z: lerp_channel(a.z, b.z, t),
        w: lerp_channel(a.w, b.w, t),
    }
}

} // verus!
