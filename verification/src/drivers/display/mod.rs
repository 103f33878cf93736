//! Display subsystem: the geometry of the attached display and the text
//! console drawn on it.
pub mod console;

use vstd::prelude::*;

verus! {

/// Geometry of the display in use.
#[derive(Debug, Clone, Copy, PartialEq, Eq, Structural)]
pub struct DisplayInfo {
    /// Width in pixels.
    pub width: u32,
    /// Height in pixels.
    pub height: u32,
    /// Bits per pixel.
    pub bpp: u8,
    /// Bytes per row.
    pub pitch: u32,
}

/// What the display subsystem knows: the geometry, once a display was found.
pub struct Display {
    pub info: Option<DisplayInfo>,
}

/// The geometry recorded for a `width` x `height` display: 32 bits per
/// pixel, four bytes of pitch per pixel of width.
pub fn display_info_for(width: u32, height: u32) -> (d: DisplayInfo)
    requires
        width * 4 <= u32::MAX,
    ensures
        d.width == width,
        d.height == height,
        d.bpp == 32,
        d.pitch == width * 4,
{
    DisplayInfo { width, height, bpp: 32, pitch: width * 4 }
}

impl Display {
    /// A display subsystem with no display yet.
    pub fn new() -> (d: Display)
        ensures
            d.info.is_none(),
    {
        Display { info: None }
    }

    /// Records the geometry of a display of the given size, as reported by
    /// the GPU driver; `None` (headless) leaves the subsystem without one.
    pub fn init(&mut self, dims: Option<(u32, u32)>)
        requires
            dims.is_some() ==> dims.unwrap().0 * 4 <= u32::MAX,
        ensures
            final(self).info == (match dims {
                Some((w, h)) => Some(DisplayInfo { width: w, height: h, bpp: 32, pitch: (w * 4) as u32 }),
                None => None::<DisplayInfo>,
            }),
    {
        match dims {
            Some((w, h)) => {
                self.info = Some(display_info_for(w, h));
            },
            None => {
                self.info = None;
            },
        }
    }

    /// The recorded geometry, if any.
    pub fn get_info(&self) -> (r: Option<DisplayInfo>)
        ensures
            r == self.info,
    {
        self.info
    }

    /// Whether a display was found.
    pub fn is_available(&self) -> (b: bool)
        ensures
            b == self.info.is_some(),
    {
        self.info.is_some()
    }
}

} // verus!
