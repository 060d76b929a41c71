use vstd::prelude::*;

use crate::frame::{image_dims, image_pixels, FrameImage};
use crate::ratio::{lemma_mul_div_le, Ratio};

verus! {

/// Horizontal scanline defined by y coordinate and x range.
/// Both start and end are inclusive, and can be in either order (e.g.
/// right-to-left).
#[derive(Debug, Clone, Copy, PartialEq, Eq, Structural)]
pub struct Scanline {
    pub x_start: u32,
    pub x_end: u32,
    pub y: u32,
}

/// Pixel classification for bar-fill boundary detection.
/// Used by HP, SA and burnout gauge scanning.
#[derive(Debug, Clone, Copy, PartialEq, Eq, Structural)]
pub enum BarSegment {
    /// Bar region is obscured by effects — reading should be skipped.
    Unknown,
    /// Active bar fill (e.g. yellow HP, cyan SA).
    Foreground,
    /// Depleted region or non-bar area (e.g. blue background, orange damage).
    Background,
}

/// Detailed HP bar pixel classification.
/// Preserves per-color semantics beyond the Foreground/Background split.
#[derive(Debug, Clone, Copy, PartialEq, Eq, Structural)]
pub enum HpSegment {
    Unknown,
    /// Yellow HP fill (the remaining health).
    Healthy,
    /// White/bright border at the edge of the HP bar.
    Border,
    /// Red/orange damage flash.
    Damage,
    /// Gray provisional damage (white-life).
    ProvisionalDamage,
    /// Dark blue depleted region.
    Background,
}

/// How an `HpSegment` collapses to the scanner's coarse alphabet.
pub open spec fn spec_collapse(seg: HpSegment) -> BarSegment {
    match seg {
        HpSegment::Healthy | HpSegment::Border => BarSegment::Foreground,
        HpSegment::Damage | HpSegment::ProvisionalDamage | HpSegment::Background => BarSegment::Background,
        HpSegment::Unknown => BarSegment::Unknown,
    }
}

impl From<HpSegment> for BarSegment {
    fn from(seg: HpSegment) -> (r: BarSegment) {
        match seg {
            HpSegment::Healthy | HpSegment::Border => BarSegment::Foreground,
            HpSegment::Damage | HpSegment::ProvisionalDamage | HpSegment::Background => BarSegment::Background,
            HpSegment::Unknown => BarSegment::Unknown,
        }
    }
}

impl vstd::std_specs::convert::FromSpecImpl<HpSegment> for BarSegment {
    open spec fn obeys_from_spec() -> bool {
        true
    }

    open spec fn from_spec(seg: HpSegment) -> BarSegment {
        spec_collapse(seg)
    }
}

impl Scanline {
    /// Pixel width of the scanline.
    pub open spec fn spec_width(self) -> int {
        if self.x_end >= self.x_start {
            self.x_end - self.x_start
        } else {
            self.x_start - self.x_end
        }
    }

    /// Scan direction: +1 for left-to-right, -1 for right-to-left.
    pub open spec fn spec_dx(self) -> int {
        if self.x_end > self.x_start {
            1
        } else {
            -1
        }
    }

    /// The x coordinate of the i-th sample along the scan direction.
    pub open spec fn spec_x_at(self, i: int) -> int {
        if self.x_end > self.x_start {
            self.x_start + i
        } else {
            self.x_start - i
        }
    }

    /// Every sample position of the scanline lies inside a frame of the
    /// given dimensions.
    pub open spec fn in_frame(self, dims: (u32, u32)) -> bool {
        self.x_start < dims.0 && self.x_end < dims.0 && self.y < dims.1
    }

    pub open spec fn spec_scale_to(self, frame_w: u32, frame_h: u32, ref_w: u32, ref_h: u32) -> Scanline {
        Scanline {
            x_start: ((self.x_start as int) * (frame_w as int) / (ref_w as int)) as u32,
            x_end: ((self.x_end as int) * (frame_w as int) / (ref_w as int)) as u32,
            y: ((self.y as int) * (frame_h as int) / (ref_h as int)) as u32,
        }
    }

    /// Scale from a reference resolution to a target resolution.
    pub fn scale_to(&self, frame_w: u32, frame_h: u32, ref_w: u32, ref_h: u32) -> (r: Scanline)
        requires
            ref_w > 0,
            ref_h > 0,
            self.x_start <= ref_w,
            self.x_end <= ref_w,
            self.y <= ref_h,
        ensures
            r == self.spec_scale_to(frame_w, frame_h, ref_w, ref_h),
            r.x_start <= frame_w,
            r.x_end <= frame_w,
            r.y <= frame_h,
    {
        proof {
            crate::ratio::lemma_u32_mul_fits_u64(self.x_start as int, frame_w as int);
            crate::ratio::lemma_u32_mul_fits_u64(self.x_end as int, frame_w as int);
            crate::ratio::lemma_u32_mul_fits_u64(self.y as int, frame_h as int);
            lemma_mul_div_le(self.x_start as int, frame_w as int, ref_w as int);
            lemma_mul_div_le(self.x_end as int, frame_w as int, ref_w as int);
            lemma_mul_div_le(self.y as int, frame_h as int, ref_h as int);
        }
        Scanline {
            x_start: ((self.x_start as u64) * (frame_w as u64) / (ref_w as u64)) as u32,
            x_end: ((self.x_end as u64) * (frame_w as u64) / (ref_w as u64)) as u32,
            y: ((self.y as u64) * (frame_h as u64) / (ref_h as u64)) as u32,
        }
    }

    /// Scan direction: +1 for left-to-right, -1 for right-to-left.
    pub fn dx(&self) -> (d: i32)
        ensures
            d == self.spec_dx(),
    {
        if self.x_end > self.x_start {
            1
        } else {
            -1
        }
    }

    /// Pixel width of the scanline.
    pub fn width(&self) -> (w: u32)
        ensures
            w == self.spec_width(),
    {
        if self.x_end >= self.x_start {
            self.x_end - self.x_start
        } else {
            self.x_start - self.x_end
        }
    }

    /// The x coordinate of the i-th sample along the scan direction.
    pub fn x_at(&self, i: u32) -> (x: u32)
        requires
            i <= self.spec_width(),
        ensures
            x == self.spec_x_at(i as int),
            self.x_start <= x <= self.x_end || self.x_end <= x <= self.x_start,
    {
        if self.x_end > self.x_start {
            self.x_start + i
        } else {
            self.x_start - i
        }
    }
}

/// HSV color representation over integers:
/// hue in millidegrees `[0, 360000)`, saturation and value in permille
/// `[0, 1000]`. Derived deterministically from an 8-bit RGB triple with
/// floor division, so every classification rule is an exact integer
/// range predicate.
#[derive(Debug, Clone, Copy, PartialEq, Eq, Structural)]
pub struct Hsv {
    pub h: u32,
    pub s: u32,
    pub v: u32,
}

impl Hsv {
    pub open spec fn wf(self) -> bool {
        self.h < 360000 && self.s <= 1000 && self.v <= 1000
    }
}

pub open spec fn spec_max3(a: int, b: int, c: int) -> int {
    if a >= b && a >= c {
        a
    } else if b >= c {
        b
    } else {
        c
    }
}

pub open spec fn spec_min3(a: int, b: int, c: int) -> int {
    if a <= b && a <= c {
        a
    } else if b <= c {
        b
    } else {
        c
    }
}

/// Hue of an RGB triple in millidegrees: the standard max/min/delta hue,
/// computed from whichever channel is the max, scaled by 1000 and floored.
/// An achromatic triple (delta 0) has hue 0.
pub open spec fn spec_hue_milli(r: int, g: int, b: int) -> int {
    let mx = spec_max3(r, g, b);
    let mn = spec_min3(r, g, b);
    let d = mx - mn;
    if d == 0 {
        0
    } else if mx == r {
        if g >= b {
            60000 * (g - b) / d
        } else {
            let t = 60000 * (b - g) / d;
            if t == 0 {
                0
            } else {
                360000 - t
            }
        }
    } else if mx == g {
        if b >= r {
            120000 + 60000 * (b - r) / d
        } else {
            120000 - 60000 * (r - b) / d
        }
    } else {
        if r >= g {
            240000 + 60000 * (r - g) / d
        } else {
            240000 - 60000 * (g - r) / d
        }
    }
}

/// The HSV value of an RGB triple: hue as above, value `max / 255` and
/// saturation `delta / max` both in permille, floored.
pub open spec fn spec_rgb_to_hsv(px: (u8, u8, u8)) -> Hsv {
    let r = px.0 as int;
    let g = px.1 as int;
    let b = px.2 as int;
    let mx = spec_max3(r, g, b);
    let mn = spec_min3(r, g, b);
    let d = mx - mn;
    Hsv {
        h: spec_hue_milli(r, g, b) as u32,
        s: (if mx > 0 {
            d * 1000 / mx
        } else {
            0
        }) as u32,
        v: (mx * 1000 / 255) as u32,
    }
}

pub fn rgb_to_hsv(px: (u8, u8, u8)) -> (out: Hsv)
    ensures
        out == spec_rgb_to_hsv(px),
        out.wf(),
{
    let r = px.0 as u32;
    let g = px.1 as u32;
    let b = px.2 as u32;
    let mx = if r >= g && r >= b {
        r
    } else if g >= b {
        g
    } else {
        b
    };
    let mn = if r <= g && r <= b {
        r
    } else if g <= b {
        g
    } else {
        b
    };
    let d = mx - mn;

    let v = mx * 1000 / 255;
    let s = if mx > 0 {
        proof {
            lemma_mul_div_le(d as int, 1000, mx as int);
        }
        d * 1000 / mx
    } else {
        0
    };

    let h: u32 = if d == 0 {
        0
    } else if mx == r {
        if g >= b {
            proof {
                lemma_mul_div_le((g - b) as int, 60000, d as int);
            }
            60000 * (g - b) / d
        } else {
            proof {
                lemma_mul_div_le((b - g) as int, 60000, d as int);
            }
            let t = 60000 * (b - g) / d;
            if t == 0 {
                0
            } else {
                360000 - t
            }
        }
    } else if mx == g {
        if b >= r {
            proof {
                lemma_mul_div_le((b - r) as int, 60000, d as int);
            }
            120000 + 60000 * (b - r) / d
        } else {
            proof {
                lemma_mul_div_le((r - b) as int, 60000, d as int);
            }
            120000 - 60000 * (r - b) / d
        }
    } else {
        if r >= g {
            proof {
                lemma_mul_div_le((r - g) as int, 60000, d as int);
            }
            240000 + 60000 * (r - g) / d
        } else {
            proof {
                lemma_mul_div_le((g - r) as int, 60000, d as int);
            }
            240000 - 60000 * (g - r) / d
        }
    };

    proof {
        lemma_mul_div_le(mx as int, 1000, 255);
    }
    Hsv { h, s, v }
}

/// A pixel classifier for the boundary scanner: an executable
/// classification together with the specification it implements.
pub trait PixelClassifier: Sized {
    spec fn spec_classify(&self, px: (u8, u8, u8)) -> BarSegment;

    fn classify(&self, px: (u8, u8, u8)) -> (r: BarSegment)
        ensures
            r == self.spec_classify(px),
    ;
}

/// A boolean HSV range predicate together with the specification it
/// implements, for sample counting.
pub trait HsvPredicate: Sized {
    spec fn spec_test(&self, hsv: Hsv) -> bool;

    fn test(&self, hsv: Hsv) -> (r: bool)
        ensures
            r == self.spec_test(hsv),
    ;
}

/// The pixel of `pix` sampled at position `i` along the scanline.
pub open spec fn sample_at(pix: Map<(u32, u32), (u8, u8, u8)>, line: Scanline, i: int) -> (u8, u8, u8) {
    pix[(line.spec_x_at(i) as u32, line.y)]
}

pub open spec fn b2i(b: bool) -> int {
    if b {
        1
    } else {
        0
    }
}

pub open spec fn opt_u32_int(o: Option<u32>) -> Option<int> {
    match o {
        Some(f) => Some(f as int),
        None => None,
    }
}

/// One walk of the boundary scanner from sample `i` with the given carried
/// state: `prev` is the previous sample's class, `last_fg` the most recent
/// Foreground index. The result is the numerator of the boundary fraction
/// (over denominator `width`), or `None` when the boundary is hidden.
pub open spec fn spec_scan<C: PixelClassifier>(
    pix: Map<(u32, u32), (u8, u8, u8)>,
    line: Scanline,
    c: C,
    i: int,
    prev: BarSegment,
    last_fg: Option<int>,
) -> Option<int>
    decreases line.spec_width() + 1 - i,
{
    if i < 0 || i > line.spec_width() {
        if prev == BarSegment::Unknown && last_fg is Some {
            Some(last_fg->0 + 1)
        } else {
            Some(line.spec_width())
        }
    } else {
        let seg = c.spec_classify(sample_at(pix, line, i));
        match seg {
            BarSegment::Foreground => spec_scan(pix, line, c, i + 1, seg, Some(i)),
            BarSegment::Unknown => spec_scan(pix, line, c, i + 1, seg, last_fg),
            BarSegment::Background => {
                if prev == BarSegment::Foreground {
                    Some(i)
                } else if prev == BarSegment::Unknown {
                    match last_fg {
                        Some(f) => Some(f + 1),
                        None => None,
                    }
                } else {
                    spec_scan(pix, line, c, i + 1, seg, last_fg)
                }
            },
        }
    }
}

/// The boundary of a scanline: the numerator of the fraction of the
/// scanline width at which the bar transitions from filled to empty, or
/// `None` when an occluded run hides the transition.
pub open spec fn spec_find_bar_boundary<C: PixelClassifier>(
    pix: Map<(u32, u32), (u8, u8, u8)>,
    line: Scanline,
    c: C,
) -> Option<int> {
    spec_scan(pix, line, c, 0, BarSegment::Foreground, None)
}

/// Walk the scanline, classify each pixel, and return the fractional
/// position where the bar transitions from filled to empty.
///
/// The policy: trust the most recent confirmed Foreground sample across an
/// occluded (Unknown) run, but never guess a boundary inside a hidden
/// region that never showed Foreground.
pub fn find_bar_boundary<C: PixelClassifier>(
    img: &FrameImage,
    line: &Scanline,
    classifier: &C,
) -> (r: Option<Ratio>)
    requires
        line.in_frame(image_dims(*img)),
        line.spec_width() > 0,
    ensures
        ({
            let s = spec_find_bar_boundary(image_pixels(*img), *line, *classifier);
            match r {
                Some(rat) => s == Some(rat.num as int) && rat.den == line.spec_width() && rat.wf(),
                None => s is None,
            }
        }),
{
    let ghost pix = image_pixels(*img);
    let ghost goal = spec_find_bar_boundary(pix, *line, *classifier);
    let width = line.width();
    let mut prev = BarSegment::Foreground;
    let mut last_fg: Option<u32> = None;
    let mut i: u32 = 0;
    while i <= width
        invariant
            width == line.spec_width(),
            line.in_frame(image_dims(*img)),
            pix == image_pixels(*img),
            width > 0,
            i <= width + 1,
            match last_fg {
                Some(f) => f < i && f <= width,
                None => true,
            },
            prev == BarSegment::Unknown ==> match last_fg {
                Some(f) => f + 1 < i,
                None => true,
            },
            spec_scan(pix, *line, *classifier, i as int, prev, opt_u32_int(last_fg)) == goal,
            goal == spec_find_bar_boundary(pix, *line, *classifier),
        decreases width + 1 - i,
    {
        let x = line.x_at(i);
        let px = img.pixel(x, line.y);
        let seg = classifier.classify(px);

        match seg {
            BarSegment::Foreground => {
                last_fg = Some(i);
            },
            BarSegment::Unknown => {},
            BarSegment::Background => {
                if prev == BarSegment::Foreground {
                    return Some(Ratio::new(i, width));
                } else if prev == BarSegment::Unknown {
                    match last_fg {
                        Some(f) => {
                            return Some(Ratio::new(f + 1, width));
                        },
                        None => {
                            return None;
                        },
                    }
                }
            },
        }

        prev = seg;
        i = i + 1;
    }

    if prev == BarSegment::Unknown {
        match last_fg {
            Some(f) => {
                return Some(Ratio::new(f + 1, width));
            },
            None => {},
        }
    }

    Some(Ratio::new(width, width))
}

/// If every sample along the scanline classifies as Foreground, the
/// boundary is exactly the full width: a completely filled bar reads 1.
pub proof fn lemma_all_foreground_yields_full<C: PixelClassifier>(
    pix: Map<(u32, u32), (u8, u8, u8)>,
    line: Scanline,
    c: C,
)
    requires
        forall|j: int|
            0 <= j <= line.spec_width() ==> c.spec_classify(sample_at(pix, line, j)) == BarSegment::Foreground,
    ensures
        spec_find_bar_boundary(pix, line, c) == Some(line.spec_width()),
{
    lemma_scan_all_foreground(pix, line, c, 0, None);
}

proof fn lemma_scan_all_foreground<C: PixelClassifier>(
    pix: Map<(u32, u32), (u8, u8, u8)>,
    line: Scanline,
    c: C,
    i: int,
    last_fg: Option<int>,
)
    requires
        0 <= i,
        forall|j: int|
            0 <= j <= line.spec_width() ==> c.spec_classify(sample_at(pix, line, j)) == BarSegment::Foreground,
    ensures
        spec_scan(pix, line, c, i, BarSegment::Foreground, last_fg) == Some(line.spec_width()),
    decreases line.spec_width() + 1 - i,
{
    if i > line.spec_width() {
    } else {
        lemma_scan_all_foreground(pix, line, c, i + 1, Some(i));
    }
}

/// If the first classified sample is Background, the boundary is exactly
/// zero: the bar reads empty immediately.
pub proof fn lemma_first_background_yields_zero<C: PixelClassifier>(
    pix: Map<(u32, u32), (u8, u8, u8)>,
    line: Scanline,
    c: C,
)
    requires
        c.spec_classify(sample_at(pix, line, 0)) == BarSegment::Background,
    ensures
        spec_find_bar_boundary(pix, line, c) == Some(0int),
{
}

/// An Unknown run with no prior Foreground, immediately followed by
/// Background, yields no reading: the true boundary is irrecoverably
/// hidden.
pub proof fn lemma_hidden_boundary_yields_none<C: PixelClassifier>(
    pix: Map<(u32, u32), (u8, u8, u8)>,
    line: Scanline,
    c: C,
    k: int,
)
    requires
        1 <= k <= line.spec_width(),
        forall|j: int| 0 <= j < k ==> c.spec_classify(sample_at(pix, line, j)) == BarSegment::Unknown,
        c.spec_classify(sample_at(pix, line, k)) == BarSegment::Background,
    ensures
        spec_find_bar_boundary(pix, line, c) is None,
{
    lemma_scan_unknown_run(pix, line, c, 0, k, BarSegment::Foreground);
}

proof fn lemma_scan_unknown_run<C: PixelClassifier>(
    pix: Map<(u32, u32), (u8, u8, u8)>,
    line: Scanline,
    c: C,
    i: int,
    k: int,
    prev: BarSegment,
)
    requires
        1 <= k <= line.spec_width(),
        0 <= i <= k,
        forall|j: int| 0 <= j < k ==> c.spec_classify(sample_at(pix, line, j)) == BarSegment::Unknown,
        c.spec_classify(sample_at(pix, line, k)) == BarSegment::Background,
        i > 0 ==> prev == BarSegment::Unknown,
    ensures
        spec_scan(pix, line, c, i, prev, None) is None,
    decreases k - i,
{
    if i == k {
    } else {
        lemma_scan_unknown_run(pix, line, c, i + 1, k, BarSegment::Unknown);
    }
}

} // verus!
