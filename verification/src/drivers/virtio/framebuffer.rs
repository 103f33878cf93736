//! The GPU's framebuffer in memory: 32-bit BGRA pixels, row after row.
use vstd::prelude::*;

verus! {

/// Framebuffer geometry and memory
#[derive(Clone)]
pub struct FramebufferInfo {
    pub width: u32,
    pub height: u32,
    pub pitch: u32,
    pub bpp: u8,
    pub buffer: Vec<u8>,
}

impl FramebufferInfo {
    /// Rows of four-byte pixels, the whole buffer addressable in 32 bits.
    pub open spec fn geometry_ok(&self) -> bool {
        self.pitch == self.width * 4 && self.height * self.pitch <= u32::MAX
    }

    /// Same geometry, same buffer size.
    pub open spec fn same_shape(&self, other: FramebufferInfo) -> bool {
        &&& other.width == self.width
        &&& other.height == self.height
        &&& other.pitch == self.pitch
        &&& other.bpp == self.bpp
        &&& other.buffer@.len() == self.buffer@.len()
    }
}

/// The buffer after pixel (`x`, `y`) is set to (`r`, `g`, `b`): inside the screen and
/// the buffer, its four bytes become blue, green, red and an opaque alpha.
pub open spec fn set_pixel_spec(buf: Seq<u8>, width: u32, height: u32, pitch: u32, x: u32, y: u32, r: u8, g: u8, b: u8) -> Seq<u8> {
    if x < width && y < height {
        let o = y * pitch + x * 4;
        if o + 3 < buf.len() {
            buf.update(o, b).update(o + 1, g).update(o + 2, r).update(o + 3, 255u8)
        } else {
            buf
        }
    } else {
        buf
    }
}

/// The buffer after the first `n` pixels of row `y` from `x0` are set.
pub open spec fn fill_row_spec(buf: Seq<u8>, width: u32, height: u32, pitch: u32, x0: u32, y: u32, n: nat, r: u8, g: u8, b: u8) -> Seq<u8>
    decreases n,
{
    if n == 0 {
        buf
    } else {
        set_pixel_spec(fill_row_spec(buf, width, height, pitch, x0, y, (n - 1) as nat, r, g, b),
            width, height, pitch, (x0 + n - 1) as u32, y, r, g, b)
    }
}

/// The buffer after the first `h` rows of the `w`-wide rectangle at (`x0`, `y0`) are set.
pub open spec fn fill_rect_spec(buf: Seq<u8>, width: u32, height: u32, pitch: u32, x0: u32, y0: u32, w: u32, h: nat, r: u8, g: u8, b: u8) -> Seq<u8>
    decreases h,
{
    if h == 0 {
        buf
    } else {
        fill_row_spec(fill_rect_spec(buf, width, height, pitch, x0, y0, w, (h - 1) as nat, r, g, b),
            width, height, pitch, x0, (y0 + h - 1) as u32, w as nat, r, g, b)
    }
}

impl FramebufferInfo {
    /// Set a pixel (ignored outside the screen or the buffer)
    pub fn set_pixel(&mut self, x: u32, y: u32, r: u8, g: u8, b: u8)
        requires
            old(self).geometry_ok(),
        ensures
            old(self).same_shape(*final(self)),
            final(self).buffer@ == set_pixel_spec(old(self).buffer@, old(self).width, old(self).height, old(self).pitch, x, y, r, g, b),
    {
        if x < self.width && y < self.height {
            proof {
                assert(y * self.pitch + x * 4 + 3 < self.height * self.pitch) by (nonlinear_arith)
                    requires
                        y < self.height,
                        x < self.width,
                        self.pitch == self.width * 4,
                ;
            }
            let offset = ((y * self.pitch) + (x * 4)) as usize;
            if offset + 3 < self.buffer.len() {
                self.buffer.set(offset, b);
                self.buffer.set(offset + 1, g);
                self.buffer.set(offset + 2, r);
                self.buffer.set(offset + 3, 255);
            }
        }
    }

    /// Fill the rectangle of `width` by `height` pixels at (`x`, `y`), row by row
    pub fn fill_rect(&mut self, x: u32, y: u32, width: u32, height: u32, r: u8, g: u8, b: u8)
        requires
            old(self).geometry_ok(),
            x + width <= u32::MAX,
            y + height <= u32::MAX,
        ensures
            old(self).same_shape(*final(self)),
            final(self).buffer@ == fill_rect_spec(old(self).buffer@, old(self).width, old(self).height, old(self).pitch,
                x, y, width, height as nat, r, g, b),
    {
        let ghost fw = self.width;
        let ghost fh = self.height;
        let ghost fp = self.pitch;
        let mut py = y;
        while py < y + height
            invariant
                y <= py <= y + height,
                y + height <= u32::MAX,
                x + width <= u32::MAX,
                self.geometry_ok(),
                old(self).same_shape(*self),
                self.width == fw && self.height == fh && self.pitch == fp,
                self.buffer@ == fill_rect_spec(old(self).buffer@, fw, fh, fp, x, y, width, (py - y) as nat, r, g, b),
            decreases y + height - py,
        {
            let ghost row_start = self.buffer@;
            let mut px = x;
            while px < x + width
                invariant
                    x <= px <= x + width,
                    x + width <= u32::MAX,
                    y <= py < y + height,
                    self.geometry_ok(),
                    old(self).same_shape(*self),
                    self.width == fw && self.height == fh && self.pitch == fp,
                    self.buffer@ == fill_row_spec(row_start, fw, fh, fp, x, py, (px - x) as nat, r, g, b),
                decreases x + width - px,
            {
                self.set_pixel(px, py, r, g, b);
                px = px + 1;
            }
            py = py + 1;
        }
    }

    /// Fill the whole screen
    pub fn clear(&mut self, r: u8, g: u8, b: u8)
        requires
            old(self).geometry_ok(),
        ensures
            old(self).same_shape(*final(self)),
            final(self).buffer@ == fill_rect_spec(old(self).buffer@, old(self).width, old(self).height, old(self).pitch,
                0, 0, old(self).width, old(self).height as nat, r, g, b),
    {
        let width = self.width;
        let height = self.height;
        self.fill_rect(0, 0, width, height, r, g, b);
    }
}

} // verus!
