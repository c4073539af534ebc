//! A generic two-dimensional grid of pixel values (color or depth).
//!
//! The grid is row-major: pixel `(x, y)` lives at flat index
//! `y * width + x`. Buffers are cleared every frame and replaced (never
//! kept) when the target surface is resized, so no content survives a
//! resize.

use vstd::prelude::*;
use vstd::pervasive::VecAdditionalExecFns;
use crate::fx::{FX, Fx3, tdiv, spec_clamp};

verus! {

/// A `width` by `height` grid of `T`, stored row-major.
pub struct Framebuffer<T> {
    pub data: Vec<T>,
    pub width: usize,
    pub height: usize,
}

impl<T> Framebuffer<T> {
    /// The grid as a flat sequence; pixel `(x, y)` sits at `y * width + x`.
    pub open spec fn grid(&self) -> Seq<T> {
        self.data@
    }

    /// The flat index of pixel `(x, y)`.
    pub open spec fn idx(&self, x: int, y: int) -> int {
        y * self.width + x
    }

    /// The backing store holds exactly one value per pixel.
    pub open spec fn wf(&self) -> bool {
        self.data@.len() == self.width * self.height
    }
}

impl<T: Copy> Framebuffer<T> {
    /// A fresh `width` by `height` buffer with every pixel set to `fill`.
    pub fn new(width: usize, height: usize, fill: T) -> (fb: Self)
        requires
            width * height <= usize::MAX,
        ensures
            fb.wf(),
            fb.width == width,
            fb.height == height,
            fb.grid() =~= Seq::new((width * height) as nat, |i: int| fill),
    {
        proof {
            assert(width * height >= 0) by (nonlinear_arith);
        }
        let n: usize = width * height;
        let mut data: Vec<T> = Vec::new();
        while data.len() < n
            invariant
                data@.len() <= n,
                forall|i: int| 0 <= i < data@.len() ==> data@[i] == fill,
            decreases n - data@.len(),
        {
            data.push(fill);
        }
        Framebuffer { data, width, height }
    }

    pub fn width(&self) -> (w: usize)
        ensures
            w == self.width,
    {
        self.width
    }

    pub fn height(&self) -> (h: usize)
        ensures
            h == self.height,
    {
        self.height
    }

    /// Overwrite pixel `(x, y)`; every other pixel keeps its value.
    pub fn set_pixel(&mut self, x: usize, y: usize, value: T)
        requires
            old(self).wf(),
            x < old(self).width,
            y < old(self).height,
        ensures
            final(self).wf(),
            final(self).width == old(self).width,
            final(self).height == old(self).height,
            final(self).grid() == old(self).grid().update(old(self).idx(x as int, y as int), value),
    {
        // Reading the length as a machine integer pins width * height
        // within the address range for the index arithmetic below.
        let total: usize = self.data.len();
        proof {
            assert(total == self.width * self.height);
            assert(x + y * self.width < self.width * self.height) by (nonlinear_arith)
                requires
                    x < self.width,
                    y < self.height,
                    self.width * self.height <= usize::MAX,
            ;
        }
        let i: usize = x + y * self.width;
        self.data.set(i, value);
    }

    /// Read pixel `(x, y)` without changing the buffer.
    pub fn get_pixel(&mut self, x: usize, y: usize) -> (value: T)
        requires
            old(self).wf(),
            x < old(self).width,
            y < old(self).height,
        ensures
            *final(self) == *old(self),
            value == old(self).grid()[old(self).idx(x as int, y as int)],
    {
        // Reading the length as a machine integer pins width * height
        // within the address range for the index arithmetic below.
        let total: usize = self.data.len();
        proof {
            assert(total == self.width * self.height);
            assert(y * self.width + x < self.width * self.height) by (nonlinear_arith)
                requires
                    x < self.width,
                    y < self.height,
                    self.width * self.height <= usize::MAX,
            ;
        }
        let i: usize = y * self.width + x;
        self.data[i]
    }

    /// Set every pixel to `value`.
    pub fn clear(&mut self, value: T)
        ensures
            final(self).wf() == old(self).wf(),
            final(self).width == old(self).width,
            final(self).height == old(self).height,
            final(self).grid() =~= Seq::new(old(self).grid().len(), |i: int| value),
    {
        let n: usize = self.data.len();
        let mut i: usize = 0;
        while i < n
            invariant
                i <= n,
                n == self.data@.len(),
                self.width == old(self).width,
                self.height == old(self).height,
                forall|j: int| 0 <= j < i ==> self.data@[j] == value,
                forall|j: int| i <= j < n ==> self.data@[j] == old(self).data@[j],
            decreases n - i,
        {
            self.data.set(i, value);
            i = i + 1;
        }
    }
}

/// The byte a fixed-point color channel packs to: scaled by 255 and
/// saturated into `[0, 255]`, as a float-to-byte cast would.
pub open spec fn channel_byte(c: int) -> int {
    spec_clamp(tdiv(c * 255, FX as int), 0, 255)
}

/// The packed surface word for one color pixel: one reserved leading zero
/// byte, then red, green, blue.
pub open spec fn pack_color(c: Fx3) -> int {
    channel_byte(c.x as int) * 0x10000 + channel_byte(c.y as int) * 0x100 + channel_byte(c.z as int)
}

impl Framebuffer<Fx3> {
    /// Encode the color grid for the target surface: one `u32` per pixel,
    /// `0x00RRGGBB`, in grid order.
    pub fn as_buffer(&self) -> (out: Vec<u32>)
        ensures
            out@.len() == self.grid().len(),
            forall|i: int| 0 <= i < out@.len() ==> out@[i] == pack_color(self.grid()[i]),
    {
        let n: usize = self.data.len();
        let mut out: Vec<u32> = Vec::new();
        let mut i: usize = 0;
        while i < n
            invariant
                i <= n,
                n == self.data@.len(),
                out@.len() == i,
                forall|j: int| 0 <= j < i ==> out@[j] == pack_color(self.data@[j]),
            decreases n - i,
        {
            let c = self.data[i];
            let r: u32 = pack_channel(c.x);
            let g: u32 = pack_channel(c.y);
            let b: u32 = pack_channel(c.z);
            out.push(r * 0x10000 + g * 0x100 + b);
            i = i + 1;
        }
        out
    }
}

/// Scale one fixed-point channel to a byte, saturating into `[0, 255]`.
fn pack_channel(c: i64) -> (b: u32)
    ensures
        b == channel_byte(c as int),
        b <= 255,
{
    let wide: i128 = (c as i128) * 255;
    let q: i128 = crate::fx::div_fx(wide, FX as i128);
    let clamped: i128 = crate::fx::clamp_i128(q, 0, 255);
    clamped as u32
}

} // verus!
