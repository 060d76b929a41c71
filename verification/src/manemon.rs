use vstd::prelude::*;

pub mod hp;
pub mod od;
pub mod sa;

use crate::analysis::{DebugRegion, HpReading, Hud, HudType, OdReading, SaReading};
use crate::common::{
    b2i, rgb_to_hsv, sample_at, spec_rgb_to_hsv, HsvPredicate, Hsv, Scanline,
};
use crate::frame::{image_dims, image_pixels, Frame, FrameImage};
use crate::ratio::Ratio;
use crate::rect::PixelRect;

verus! {

/// The reference resolution at which all layout constants are defined.
pub const REF_WIDTH: u32 = 1920;

pub const REF_HEIGHT: u32 = 1080;

/// Thickness of the debug overlay line.
pub const DEBUG_LINE_H: u32 = 3;

/// Number of evenly-spaced sample points per scanline for sample counting.
pub const DETECT_SAMPLE_COUNT: u32 = 16;

/// P1 health bar scanline at the reference resolution; it scans
/// right-to-left, from the center of the screen outward.
pub open spec fn spec_p1_health() -> Scanline {
    Scanline { x_start: 886u32, x_end: 187u32, y: 80u32 }
}

pub fn p1_health() -> (s: Scanline)
    ensures
        s == spec_p1_health(),
{
    Scanline { x_start: 886, x_end: 187, y: 80 }
}

/// P2 health bar — horizontal mirror of P1.
pub open spec fn spec_p2_health() -> Scanline {
    Scanline { x_start: (REF_WIDTH - 886) as u32, x_end: (REF_WIDTH - 187) as u32, y: 80u32 }
}

pub fn p2_health() -> (s: Scanline)
    ensures
        s == spec_p2_health(),
{
    Scanline { x_start: REF_WIDTH - 886, x_end: REF_WIDTH - 187, y: 80 }
}

/// P1 SA gauge scanline at the reference resolution. Scans left-to-right
/// (the gauge fills from the edge toward the center).
pub open spec fn spec_p1_sa_gauge() -> Scanline {
    Scanline { x_start: 188u32, x_end: 413u32, y: 1002u32 }
}

pub fn p1_sa_gauge() -> (s: Scanline)
    ensures
        s == spec_p1_sa_gauge(),
{
    Scanline { x_start: 188, x_end: 413, y: 1002 }
}

/// P2 SA gauge — horizontal mirror of P1.
pub open spec fn spec_p2_sa_gauge() -> Scanline {
    Scanline { x_start: (REF_WIDTH - 188) as u32, x_end: (REF_WIDTH - 413) as u32, y: 1002u32 }
}

pub fn p2_sa_gauge() -> (s: Scanline)
    ensures
        s == spec_p2_sa_gauge(),
{
    Scanline { x_start: REF_WIDTH - 188, x_end: REF_WIDTH - 413, y: 1002 }
}

/// P1 SA stock digit bounding box at the reference resolution.
pub open spec fn spec_p1_sa_digit() -> PixelRect {
    PixelRect { x: 120u32, y: 960u32, w: 40u32, h: 60u32 }
}

pub fn p1_sa_digit() -> (r: PixelRect)
    ensures
        r == spec_p1_sa_digit(),
{
    PixelRect { x: 120, y: 960, w: 40, h: 60 }
}

/// P2 SA stock digit — horizontal mirror of P1.
pub open spec fn spec_p2_sa_digit() -> PixelRect {
    PixelRect { x: (REF_WIDTH - 120 - 40) as u32, y: 960u32, w: 40u32, h: 60u32 }
}

pub fn p2_sa_digit() -> (r: PixelRect)
    ensures
        r == spec_p2_sa_digit(),
{
    PixelRect { x: REF_WIDTH - 120 - 40, y: 960, w: 40, h: 60 }
}

/// Probes used to distinguish digits 0-3, as absolute P1-side pixel
/// coordinates at the reference resolution; probe `i` reads foreground
/// exactly when the displayed digit is `i`. Derived offline by scanning
/// the digit bounding box over reference captures of each digit.
pub open spec fn spec_sa_digit_probes() -> Seq<(u32, u32)> {
    seq![(129u32, 989u32), (138u32, 985u32), (144u32, 961u32), (133u32, 995u32)]
}

pub fn sa_digit_probes() -> (p: [(u32, u32); 4])
    ensures
        p@ == spec_sa_digit_probes(),
{
    let p = [(129u32, 989u32), (138u32, 985u32), (144u32, 961u32), (133u32, 995u32)];
    proof {
        assert(p@ =~= spec_sa_digit_probes());
    }
    p
}

/// Scanline across the SA gauge's frame, which game effects rarely cover.
pub open spec fn spec_sa_frame() -> Scanline {
    Scanline { x_start: 208u32, x_end: 220u32, y: 1027u32 }
}

pub fn sa_frame() -> (s: Scanline)
    ensures
        s == spec_sa_frame(),
{
    Scanline { x_start: 208, x_end: 220, y: 1027 }
}

/// The CA-ready variant of the SA gauge frame color.
pub open spec fn spec_is_ca_frame(hsv: Hsv) -> bool {
    hsv.h > 190000 && hsv.h < 210000 && hsv.s > 900 && hsv.v > 900
}

pub fn is_ca_frame(hsv: Hsv) -> (r: bool)
    ensures
        r == spec_is_ca_frame(hsv),
{
    hsv.h > 190000 && hsv.h < 210000 && hsv.s > 900 && hsv.v > 900
}

/// The normal SA gauge frame color.
pub open spec fn spec_is_sa_frame(hsv: Hsv) -> bool {
    hsv.h > 210000 && hsv.h < 230000 && hsv.s > 900 && hsv.v > 900
}

pub fn is_sa_frame(hsv: Hsv) -> (r: bool)
    ensures
        r == spec_is_sa_frame(hsv),
{
    hsv.h > 210000 && hsv.h < 230000 && hsv.s > 900 && hsv.v > 900
}

/// The HUD is declared present exactly when every sample along the SA
/// frame scanline matches one of the two expected frame colors.
pub open spec fn spec_detect_manemon(pix: Map<(u32, u32), (u8, u8, u8)>) -> bool {
    forall|i: int|
        0 <= i < spec_sa_frame().spec_width() ==> ({
            let hsv = spec_rgb_to_hsv(#[trigger] sample_at(pix, spec_sa_frame(), i));
            spec_is_sa_frame(hsv) || spec_is_ca_frame(hsv)
        })
}

/// How many of the evenly-spaced samples along the scanline satisfy the
/// predicate, counting positions `[i, 16)`.
pub open spec fn spec_count_matching_from<P: HsvPredicate>(
    pix: Map<(u32, u32), (u8, u8, u8)>,
    line: Scanline,
    pred: P,
    i: int,
) -> int
    decreases 16 - i,
{
    if i < 0 || i >= 16 {
        0
    } else {
        let off = i * (line.spec_width() - 1) / 15;
        b2i(pred.spec_test(spec_rgb_to_hsv(sample_at(pix, line, off)))) + spec_count_matching_from(
            pix,
            line,
            pred,
            i + 1,
        )
    }
}

/// Sample sixteen evenly-spaced pixels along a scanline and count how many
/// pass the predicate.
pub fn count_matching_pixels<P: HsvPredicate>(img: &FrameImage, line: &Scanline, pred: &P) -> (count: u32)
    requires
        line.in_frame(image_dims(*img)),
        line.spec_width() > 0,
    ensures
        count == spec_count_matching_from(image_pixels(*img), *line, *pred, 0),
{
    let ghost pix = image_pixels(*img);
    let width = line.width();
    let mut count: u32 = 0;
    let mut i: u32 = 0;
    while i < 16
        invariant
            width == line.spec_width(),
            width > 0,
            line.in_frame(image_dims(*img)),
            pix == image_pixels(*img),
            i <= 16,
            count <= i,
            spec_count_matching_from(pix, *line, *pred, 0) == count + spec_count_matching_from(
                pix,
                *line,
                *pred,
                i as int,
            ),
        decreases 16 - i,
    {
        proof {
            crate::ratio::lemma_mul_div_le(i as int, width as int - 1, 15);
        }
        let offset = (((i as u64) * ((width - 1) as u64)) / 15) as u32;
        let x = line.x_at(offset);
        let hsv = rgb_to_hsv(img.pixel(x, line.y));
        if pred.test(hsv) {
            count = count + 1;
        }
        i = i + 1;
    }
    count
}

/// A configuration the layout cannot support.
#[derive(Debug, Clone, Copy, PartialEq, Eq, Structural)]
pub enum ConfigError {
    /// The frame resolution differs from the one the layout supports.
    UnsupportedResolution,
}

/// The "manemon" HUD analyzer: all scan geometry is fixed at construction.
pub struct ManemonHud {
    pub p1_scan: Scanline,
    pub p2_scan: Scanline,
    pub p1_sa_scan: Scanline,
    pub p2_sa_scan: Scanline,
    pub p1_sa_digit_probes: [(u32, u32); 4],
    pub p2_sa_digit_probes: [(u32, u32); 4],
    pub p1_od_scan: Scanline,
    pub p2_od_scan: Scanline,
}

/// The P2-side digit probes: each P1 probe shifted into the P2 digit box.
pub open spec fn spec_p2_sa_digit_probes() -> Seq<(u32, u32)> {
    Seq::new(
        4,
        |i: int|
            (
                (spec_p2_sa_digit().x + spec_sa_digit_probes()[i].0 - spec_p1_sa_digit().x) as u32,
                spec_sa_digit_probes()[i].1,
            ),
    )
}

impl ManemonHud {
    /// Build the analyzer for the given frame resolution; a resolution
    /// other than the supported one is a configuration error.
    pub fn new(frame_width: u32, frame_height: u32) -> (r: Result<ManemonHud, ConfigError>)
        ensures
            r is Ok <==> (frame_width == 1920 && frame_height == 1080),
            match r {
                Ok(hud) => hud.wf(),
                Err(e) => e == ConfigError::UnsupportedResolution,
            },
    {
        if !(frame_width == 1920 && frame_height == 1080) {
            return Err(ConfigError::UnsupportedResolution);
        }

        let p1_scan = p1_health().scale_to(frame_width, frame_height, REF_WIDTH, REF_HEIGHT);
        let p2_scan = p2_health().scale_to(frame_width, frame_height, REF_WIDTH, REF_HEIGHT);
        let p1_sa_scan = p1_sa_gauge().scale_to(frame_width, frame_height, REF_WIDTH, REF_HEIGHT);
        let p2_sa_scan = p2_sa_gauge().scale_to(frame_width, frame_height, REF_WIDTH, REF_HEIGHT);
        let p1_od_scan = od::p1_od_gauge().scale_to(frame_width, frame_height, REF_WIDTH, REF_HEIGHT);
        let p2_od_scan = od::p2_od_gauge().scale_to(frame_width, frame_height, REF_WIDTH, REF_HEIGHT);

        let probes = sa_digit_probes();
        let p1_digit = p1_sa_digit();
        let p2_digit = p2_sa_digit();
        let p2_probes: [(u32, u32); 4] = [
            (p2_digit.x + probes[0].0 - p1_digit.x, probes[0].1),
            (p2_digit.x + probes[1].0 - p1_digit.x, probes[1].1),
            (p2_digit.x + probes[2].0 - p1_digit.x, probes[2].1),
            (p2_digit.x + probes[3].0 - p1_digit.x, probes[3].1),
        ];
        proof {
            assert(p2_probes@ =~= spec_p2_sa_digit_probes());
        }

        Ok(
            ManemonHud {
                p1_scan,
                p2_scan,
                p1_sa_scan,
                p2_sa_scan,
                p1_sa_digit_probes: probes,
                p2_sa_digit_probes: p2_probes,
                p1_od_scan,
                p2_od_scan,
            },
        )
    }
}

/// The debug overlay rectangle of a scanline: a thin horizontal band
/// centered on the scan row.
pub open spec fn spec_scanline_rect(scan: Scanline) -> PixelRect {
    PixelRect {
        x: if scan.x_start < scan.x_end {
            scan.x_start
        } else {
            scan.x_end
        },
        y: (scan.y - DEBUG_LINE_H / 2) as u32,
        w: (scan.spec_width() + 1) as u32,
        h: DEBUG_LINE_H,
    }
}

fn scanline_rect(scan: &Scanline) -> (r: PixelRect)
    requires
        scan.y >= DEBUG_LINE_H / 2,
        scan.spec_width() + 1 <= u32::MAX,
    ensures
        r == spec_scanline_rect(*scan),
{
    let x = if scan.x_start < scan.x_end {
        scan.x_start
    } else {
        scan.x_end
    };
    let w = scan.width();
    PixelRect { x, y: scan.y - DEBUG_LINE_H / 2, w: w + 1, h: DEBUG_LINE_H }
}

/// The fill ratio of one health bar, as the scanner's fraction.
pub open spec fn spec_hp_side(pix: Map<(u32, u32), (u8, u8, u8)>, line: Scanline) -> Option<Ratio> {
    match hp::spec_analyze_hp(pix, line) {
        Some(b) => Some(Ratio { num: b as u32, den: line.spec_width() as u32 }),
        None => None,
    }
}

impl Hud for ManemonHud {
    open spec fn wf(&self) -> bool {
        &&& self.p1_scan == spec_p1_health()
        &&& self.p2_scan == spec_p2_health()
        &&& self.p1_sa_scan == spec_p1_sa_gauge()
        &&& self.p2_sa_scan == spec_p2_sa_gauge()
        &&& self.p1_sa_digit_probes@ == spec_sa_digit_probes()
        &&& self.p2_sa_digit_probes@ == spec_p2_sa_digit_probes()
        &&& self.p1_od_scan == od::spec_p1_od_gauge()
        &&& self.p2_od_scan == od::spec_p2_od_gauge()
    }

    open spec fn frame_ok(&self, frame: Frame) -> bool {
        image_dims(frame.image) == (1920u32, 1080u32)
    }

    open spec fn spec_hud_type(&self) -> HudType {
        HudType::Manemon
    }

    open spec fn spec_detect_hud(&self, frame: Frame) -> bool {
        spec_detect_manemon(image_pixels(frame.image))
    }

    open spec fn spec_analyze_hp(&self, frame: Frame) -> HpReading {
        HpReading {
            p1: spec_hp_side(image_pixels(frame.image), self.p1_scan),
            p2: spec_hp_side(image_pixels(frame.image), self.p2_scan),
        }
    }

    open spec fn spec_analyze_sa(&self, frame: Frame) -> SaReading {
        SaReading {
            p1: sa::spec_read_sa_value(
                image_pixels(frame.image),
                image_dims(frame.image),
                self.p1_sa_digit_probes@,
                self.p1_sa_scan,
            ),
            p2: sa::spec_read_sa_value(
                image_pixels(frame.image),
                image_dims(frame.image),
                self.p2_sa_digit_probes@,
                self.p2_sa_scan,
            ),
        }
    }

    open spec fn spec_analyze_od(&self, frame: Frame) -> OdReading {
        OdReading {
            p1: od::spec_read_od_value(image_pixels(frame.image), true),
            p2: od::spec_read_od_value(image_pixels(frame.image), false),
        }
    }

    open spec fn spec_debug_regions(&self) -> Seq<DebugRegion> {
        seq![
            DebugRegion { rect: spec_scanline_rect(self.p1_scan), color: (0u8, 255u8, 0u8) },
            DebugRegion { rect: spec_scanline_rect(self.p2_scan), color: (0u8, 100u8, 255u8) },
            DebugRegion { rect: spec_scanline_rect(self.p1_sa_scan), color: (255u8, 255u8, 0u8) },
            DebugRegion { rect: spec_scanline_rect(self.p2_sa_scan), color: (255u8, 255u8, 0u8) },
            DebugRegion { rect: spec_scanline_rect(self.p1_od_scan), color: (0u8, 255u8, 128u8) },
            DebugRegion { rect: spec_scanline_rect(self.p2_od_scan), color: (0u8, 255u8, 128u8) },
        ]
    }

    fn hud_type(&self) -> (t: HudType) {
        HudType::Manemon
    }

    fn detect_hud(&self, frame: &Frame) -> (r: bool) {
        let ghost pix = image_pixels(frame.image);
        let line = sa_frame();
        let width = line.width();
        let mut i: u32 = 0;
        while i < width
            invariant
                line == spec_sa_frame(),
                width == line.spec_width(),
                image_dims(frame.image) == (1920u32, 1080u32),
                pix == image_pixels(frame.image),
                i <= width,
                forall|j: int|
                    0 <= j < i ==> ({
                        let hsv = spec_rgb_to_hsv(#[trigger] sample_at(pix, spec_sa_frame(), j));
                        spec_is_sa_frame(hsv) || spec_is_ca_frame(hsv)
                    }),
            decreases width - i,
        {
            let x = line.x_at(i);
            let px = frame.image.pixel(x, line.y);
            let hsv = rgb_to_hsv(px);
            if !(is_sa_frame(hsv) || is_ca_frame(hsv)) {
                proof {
                    assert(sample_at(pix, spec_sa_frame(), i as int) == px);
                    assert(!spec_detect_manemon(pix));
                }
                return false;
            }
            i = i + 1;
        }
        true
    }

    fn analyze_hp(&self, frame: &Frame) -> (r: HpReading) {
        let p1 = hp::analyze_hp(&frame.image, &self.p1_scan);
        let p2 = hp::analyze_hp(&frame.image, &self.p2_scan);
        HpReading { p1, p2 }
    }

    #[verifier::rlimit(50)]
    fn analyze_sa(&self, frame: &Frame) -> (r: SaReading) {
        proof {
            assert(self.p1_sa_digit_probes@[0] == (129u32, 989u32));
            assert(self.p1_sa_digit_probes@[1] == (138u32, 985u32));
            assert(self.p1_sa_digit_probes@[2] == (144u32, 961u32));
            assert(self.p1_sa_digit_probes@[3] == (133u32, 995u32));
            assert(self.p2_sa_digit_probes@[0] == (1769u32, 989u32));
            assert(self.p2_sa_digit_probes@[1] == (1778u32, 985u32));
            assert(self.p2_sa_digit_probes@[2] == (1784u32, 961u32));
            assert(self.p2_sa_digit_probes@[3] == (1773u32, 995u32));
            assert(sa::probes_in_frame(self.p1_sa_digit_probes@, image_dims(frame.image)));
            assert(sa::probes_in_frame(self.p2_sa_digit_probes@, image_dims(frame.image)));
        }
        let p1 = sa::read_sa_value(&frame.image, &self.p1_sa_digit_probes, &self.p1_sa_scan);
        let p2 = sa::read_sa_value(&frame.image, &self.p2_sa_digit_probes, &self.p2_sa_scan);
        SaReading { p1, p2 }
    }

    fn analyze_od(&self, frame: &Frame) -> (r: OdReading) {
        let p1 = od::read_od_value(&frame.image, true);
        let p2 = od::read_od_value(&frame.image, false);
        OdReading { p1, p2 }
    }

    fn debug_regions(&self) -> (v: Vec<DebugRegion>) {
        let mut v: Vec<DebugRegion> = Vec::new();
        v.push(DebugRegion { rect: scanline_rect(&self.p1_scan), color: (0, 255, 0) });
        v.push(DebugRegion { rect: scanline_rect(&self.p2_scan), color: (0, 100, 255) });
        v.push(DebugRegion { rect: scanline_rect(&self.p1_sa_scan), color: (255, 255, 0) });
        v.push(DebugRegion { rect: scanline_rect(&self.p2_sa_scan), color: (255, 255, 0) });
        v.push(DebugRegion { rect: scanline_rect(&self.p1_od_scan), color: (0, 255, 128) });
        v.push(DebugRegion { rect: scanline_rect(&self.p2_od_scan), color: (0, 255, 128) });
        proof {
            assert(v@ =~= self.spec_debug_regions());
        }
        v
    }
}

} // verus!
