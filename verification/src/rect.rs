use vstd::prelude::*;

use crate::ratio::{lemma_mul_div_le, lemma_u32_mul_fits_u64, Ratio};

verus! {

/// A rectangle defined in normalized coordinates (fractions of the frame
/// size), independent of the actual frame resolution.
#[derive(Debug, Clone, Copy, PartialEq, Eq, Structural)]
pub struct NormalizedRect {
    pub x: Ratio,
    pub y: Ratio,
    pub w: Ratio,
    pub h: Ratio,
}

/// A rectangle in absolute pixel coordinates.
#[derive(Debug, Clone, Copy, PartialEq, Eq, Structural)]
pub struct PixelRect {
    pub x: u32,
    pub y: u32,
    pub w: u32,
    pub h: u32,
}

impl NormalizedRect {
    pub open spec fn wf(self) -> bool {
        self.x.wf() && self.y.wf() && self.w.wf() && self.h.wf()
    }

    /// The pixel rectangle of a normalized rectangle at the given frame
    /// resolution; each coordinate is scaled with floor division.
    pub open spec fn spec_to_pixel_rect(self, frame_width: u32, frame_height: u32) -> PixelRect {
        PixelRect {
            x: ((self.x.num as int) * (frame_width as int) / (self.x.den as int)) as u32,
            y: ((self.y.num as int) * (frame_height as int) / (self.y.den as int)) as u32,
            w: ((self.w.num as int) * (frame_width as int) / (self.w.den as int)) as u32,
            h: ((self.h.num as int) * (frame_height as int) / (self.h.den as int)) as u32,
        }
    }

    pub fn to_pixel_rect(self, frame_width: u32, frame_height: u32) -> (r: PixelRect)
        requires
            self.wf(),
        ensures
            r == self.spec_to_pixel_rect(frame_width, frame_height),
            r.x <= frame_width,
            r.y <= frame_height,
            r.w <= frame_width,
            r.h <= frame_height,
    {
        proof {
            lemma_u32_mul_fits_u64(self.x.num as int, frame_width as int);
            lemma_u32_mul_fits_u64(self.y.num as int, frame_height as int);
            lemma_u32_mul_fits_u64(self.w.num as int, frame_width as int);
            lemma_u32_mul_fits_u64(self.h.num as int, frame_height as int);
            lemma_mul_div_le(self.x.num as int, frame_width as int, self.x.den as int);
            lemma_mul_div_le(self.y.num as int, frame_height as int, self.y.den as int);
            lemma_mul_div_le(self.w.num as int, frame_width as int, self.w.den as int);
            lemma_mul_div_le(self.h.num as int, frame_height as int, self.h.den as int);
        }
        PixelRect {
            x: ((self.x.num as u64) * (frame_width as u64) / (self.x.den as u64)) as u32,
            y: ((self.y.num as u64) * (frame_height as u64) / (self.y.den as u64)) as u32,
            w: ((self.w.num as u64) * (frame_width as u64) / (self.w.den as u64)) as u32,
            h: ((self.h.num as u64) * (frame_height as u64) / (self.h.den as u64)) as u32,
        }
    }
}

impl PixelRect {
    /// Every coordinate lies within the given reference resolution, so the
    /// rectangle can be rescaled to any target resolution without leaving it.
    pub open spec fn within(self, ref_w: u32, ref_h: u32) -> bool {
        self.x <= ref_w && self.y <= ref_h && self.w <= ref_w && self.h <= ref_h
    }

    pub open spec fn spec_scale_to(self, target_w: u32, target_h: u32, ref_w: u32, ref_h: u32) -> PixelRect {
        PixelRect {
            x: ((self.x as int) * (target_w as int) / (ref_w as int)) as u32,
            y: ((self.y as int) * (target_h as int) / (ref_h as int)) as u32,
            w: ((self.w as int) * (target_w as int) / (ref_w as int)) as u32,
            h: ((self.h as int) * (target_h as int) / (ref_h as int)) as u32,
        }
    }

    /// Scale this rect from a reference resolution to a target resolution.
    pub fn scale_to(self, target_w: u32, target_h: u32, ref_w: u32, ref_h: u32) -> (r: PixelRect)
        requires
            ref_w > 0,
            ref_h > 0,
            target_w > 0,
            target_h > 0,
            self.within(ref_w, ref_h),
        ensures
            r == self.spec_scale_to(target_w, target_h, ref_w, ref_h),
            r.within(target_w, target_h),
    {
        proof {
            lemma_u32_mul_fits_u64(self.x as int, target_w as int);
            lemma_u32_mul_fits_u64(self.y as int, target_h as int);
            lemma_u32_mul_fits_u64(self.w as int, target_w as int);
            lemma_u32_mul_fits_u64(self.h as int, target_h as int);
            lemma_mul_div_le(self.x as int, target_w as int, ref_w as int);
            lemma_mul_div_le(self.y as int, target_h as int, ref_h as int);
            lemma_mul_div_le(self.w as int, target_w as int, ref_w as int);
            lemma_mul_div_le(self.h as int, target_h as int, ref_h as int);
        }
        PixelRect {
            x: ((self.x as u64) * (target_w as u64) / (ref_w as u64)) as u32,
            y: ((self.y as u64) * (target_h as u64) / (ref_h as u64)) as u32,
            w: ((self.w as u64) * (target_w as u64) / (ref_w as u64)) as u32,
            h: ((self.h as u64) * (target_h as u64) / (ref_h as u64)) as u32,
        }
    }
}

} // verus!
