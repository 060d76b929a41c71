use vstd::prelude::*;

use crate::common::{
    b2i, rgb_to_hsv, sample_at, spec_collapse, spec_rgb_to_hsv, BarSegment, HpSegment, Hsv,
    PixelClassifier, Scanline,
};
use crate::frame::{image_dims, image_pixels, FrameImage};
use crate::ratio::Ratio;

verus! {

/// HP bar fill at normal health levels (yellow).
pub open spec fn spec_is_hp_yellow(hsv: Hsv) -> bool {
    hsv.h >= 48000 && hsv.h <= 66000 && hsv.s >= 300 && hsv.v >= 900
}

pub fn is_hp_yellow(hsv: Hsv) -> (r: bool)
    ensures
        r == spec_is_hp_yellow(hsv),
{
    hsv.h >= 48000 && hsv.h <= 66000 && hsv.s >= 300 && hsv.v >= 900
}

/// HP bar fill at low health below ~25% (orange).
pub open spec fn spec_is_hp_orange(hsv: Hsv) -> bool {
    hsv.h >= 38000 && hsv.h <= 50000 && hsv.s >= 850 && hsv.v >= 900
}

pub fn is_hp_orange(hsv: Hsv) -> (r: bool)
    ensures
        r == spec_is_hp_orange(hsv),
{
    hsv.h >= 38000 && hsv.h <= 50000 && hsv.s >= 850 && hsv.v >= 900
}

/// HP bar fill — yellow (normal) or orange (low health).
pub open spec fn spec_is_hp_healthy(hsv: Hsv) -> bool {
    spec_is_hp_yellow(hsv) || spec_is_hp_orange(hsv)
}

pub fn is_hp_healthy(hsv: Hsv) -> (r: bool)
    ensures
        r == spec_is_hp_healthy(hsv),
{
    is_hp_yellow(hsv) || is_hp_orange(hsv)
}

/// White border paired with the yellow fill.
pub open spec fn spec_is_hp_border_white(hsv: Hsv) -> bool {
    hsv.s < 250 && hsv.v > 900
}

pub fn is_hp_border_white(hsv: Hsv) -> (r: bool)
    ensures
        r == spec_is_hp_border_white(hsv),
{
    hsv.s < 250 && hsv.v > 900
}

/// Orange-tinted border paired with the orange low-health fill.
pub open spec fn spec_is_hp_border_orange(hsv: Hsv) -> bool {
    hsv.h > 40000 && hsv.h < 65000 && hsv.s > 700 && hsv.s < 850 && hsv.v > 900
}

pub fn is_hp_border_orange(hsv: Hsv) -> (r: bool)
    ensures
        r == spec_is_hp_border_orange(hsv),
{
    hsv.h > 40000 && hsv.h < 65000 && hsv.s > 700 && hsv.s < 850 && hsv.v > 900
}

/// Gray provisional damage (white-life).
pub open spec fn spec_is_provisional_damage(hsv: Hsv) -> bool {
    hsv.s < 100 && hsv.v >= 600 && hsv.v <= 900
}

pub fn is_provisional_damage(hsv: Hsv) -> (r: bool)
    ensures
        r == spec_is_provisional_damage(hsv),
{
    hsv.s < 100 && hsv.v >= 600 && hsv.v <= 900
}

/// Dark blue depleted region.
pub open spec fn spec_is_hp_background(hsv: Hsv) -> bool {
    hsv.h > 215000 && hsv.h < 222000 && hsv.s > 950
}

pub fn is_hp_background(hsv: Hsv) -> (r: bool)
    ensures
        r == spec_is_hp_background(hsv),
{
    hsv.h > 215000 && hsv.h < 222000 && hsv.s > 950
}

/// Red/orange damage flash.
pub open spec fn spec_is_damage(hsv: Hsv) -> bool {
    hsv.h >= 17000 && hsv.h <= 25000 && hsv.s >= 900 && hsv.v >= 900
}

pub fn is_damage(hsv: Hsv) -> (r: bool)
    ensures
        r == spec_is_damage(hsv),
{
    hsv.h >= 17000 && hsv.h <= 25000 && hsv.s >= 900 && hsv.v >= 900
}

/// Blue gauge frame around the HP bar; the two sides render it at
/// different brightness.
pub open spec fn spec_is_hp_bar_frame(hsv: Hsv) -> bool {
    (hsv.h > 210000 && hsv.h < 230000 && hsv.s > 800 && hsv.v > 750) || (hsv.h > 210000 && hsv.h
        < 230000 && hsv.s > 400 && hsv.s < 700 && hsv.v > 400 && hsv.v < 700)
}

pub fn is_hp_bar_frame(hsv: Hsv) -> (r: bool)
    ensures
        r == spec_is_hp_bar_frame(hsv),
{
    if hsv.h > 210000 && hsv.h < 230000 && hsv.s > 800 && hsv.v > 750 {
        return true;
    }
    hsv.h > 210000 && hsv.h < 230000 && hsv.s > 400 && hsv.s < 700 && hsv.v > 400 && hsv.v < 700
}

/// HP bar pixel for HUD detection. Excludes the loose border heuristic
/// to avoid false positives on bright scenes (e.g. white transition
/// screens).
pub open spec fn spec_is_hp_bar_pixel(hsv: Hsv) -> bool {
    spec_is_hp_healthy(hsv) || spec_is_hp_background(hsv) || spec_is_damage(hsv)
}

pub fn is_hp_bar_pixel(hsv: Hsv) -> (r: bool)
    ensures
        r == spec_is_hp_bar_pixel(hsv),
{
    is_hp_healthy(hsv) || is_hp_background(hsv) || is_damage(hsv)
}

/// The HP bar pixel predicate as a value, for sample counting.
pub struct HpBarPixel;

impl crate::common::HsvPredicate for HpBarPixel {
    open spec fn spec_test(&self, hsv: Hsv) -> bool {
        spec_is_hp_bar_pixel(hsv)
    }

    fn test(&self, hsv: Hsv) -> (r: bool) {
        is_hp_bar_pixel(hsv)
    }
}

/// Detailed classification of one HP bar pixel.
pub open spec fn spec_classify_hp_pixel(px: (u8, u8, u8)) -> HpSegment {
    let hsv = spec_rgb_to_hsv(px);
    if spec_is_hp_healthy(hsv) {
        HpSegment::Healthy
    } else if spec_is_hp_border_white(hsv) {
        HpSegment::Border
    } else if spec_is_damage(hsv) {
        HpSegment::Damage
    } else if spec_is_provisional_damage(hsv) {
        HpSegment::ProvisionalDamage
    } else if spec_is_hp_background(hsv) {
        HpSegment::Background
    } else {
        HpSegment::Unknown
    }
}

pub fn classify_hp_pixel(px: (u8, u8, u8)) -> (r: HpSegment)
    ensures
        r == spec_classify_hp_pixel(px),
{
    let hsv = rgb_to_hsv(px);
    if is_hp_healthy(hsv) {
        HpSegment::Healthy
    } else if is_hp_border_white(hsv) {
        HpSegment::Border
    } else if is_damage(hsv) {
        HpSegment::Damage
    } else if is_provisional_damage(hsv) {
        HpSegment::ProvisionalDamage
    } else if is_hp_background(hsv) {
        HpSegment::Background
    } else {
        HpSegment::Unknown
    }
}

/// The generic HP strategy's classifier: detailed HP classification
/// collapsed to the scanner's coarse alphabet.
pub struct HpBarClassifier;

impl PixelClassifier for HpBarClassifier {
    open spec fn spec_classify(&self, px: (u8, u8, u8)) -> BarSegment {
        spec_collapse(spec_classify_hp_pixel(px))
    }

    fn classify(&self, px: (u8, u8, u8)) -> (r: BarSegment) {
        BarSegment::from(classify_hp_pixel(px))
    }
}

/// How many of the five pixels vertically centered on sample `f` of the
/// scanline are background-colored. Cross-checks a fully depleted bar.
pub open spec fn spec_vertical_bg_count(
    pix: Map<(u32, u32), (u8, u8, u8)>,
    line: Scanline,
    f: int,
) -> int {
    let x = line.spec_x_at(f) as u32;
    b2i(spec_is_hp_background(spec_rgb_to_hsv(pix[(x, (line.y - 2) as u32)]))) + b2i(
        spec_is_hp_background(spec_rgb_to_hsv(pix[(x, (line.y - 1) as u32)])),
    ) + b2i(spec_is_hp_background(spec_rgb_to_hsv(pix[(x, line.y)]))) + b2i(
        spec_is_hp_background(spec_rgb_to_hsv(pix[(x, (line.y + 1) as u32)])),
    ) + b2i(spec_is_hp_background(spec_rgb_to_hsv(pix[(x, (line.y + 2) as u32)])))
}

/// One step of the border scan from sample `i`, carrying the run counters:
/// `yc`/`oc` count consecutive-fill yellow and orange pixels, `bc` counts
/// background pixels with `fbi` the first background index, and `bdc`/`bdi`
/// track the current border-candidate run. The result is the confirmed
/// border position (one past the last border pixel), or `None` together
/// with the final background counters for the depleted-bar cross-check.
pub open spec fn spec_border_scan(
    pix: Map<(u32, u32), (u8, u8, u8)>,
    line: Scanline,
    i: int,
    yc: int,
    oc: int,
    bc: int,
    fbi: Option<int>,
    bdc: int,
    bdi: int,
) -> (Option<int>, int, Option<int>)
    decreases line.spec_width() + 1 - i,
{
    if i < 3 || i > line.spec_width() {
        (None, bc, fbi)
    } else {
        let hsv = spec_rgb_to_hsv(sample_at(pix, line, i));
        if oc < 8 && spec_is_hp_yellow(hsv) {
            spec_border_scan(pix, line, i + 1, yc + 1, oc, bc, fbi, 0, bdi)
        } else if yc < 8 && spec_is_hp_orange(hsv) {
            spec_border_scan(pix, line, i + 1, yc, oc + 1, bc, fbi, 0, bdi)
        } else if (yc >= oc && spec_is_hp_border_white(hsv)) || (oc > yc
            && spec_is_hp_border_orange(hsv)) {
            spec_border_scan(pix, line, i + 1, yc, oc, bc, fbi, bdc + 1, i)
        } else {
            let bc1 = if spec_is_hp_background(hsv) {
                bc + 1
            } else {
                bc
            };
            let fbi1 = if spec_is_hp_background(hsv) && fbi is None {
                Some(i)
            } else {
                fbi
            };
            if (spec_is_hp_bar_frame(hsv) || spec_is_hp_background(hsv) || spec_is_damage(hsv)
                || spec_is_provisional_damage(hsv)) && 1 <= bdc <= 4 {
                (Some(bdi + 1), bc1, fbi1)
            } else {
                spec_border_scan(pix, line, i + 1, yc, oc, bc1, fbi1, bdc, bdi)
            }
        }
    }
}

/// The border position of the specialized HP border scan: the confirmed
/// border if one is found, position zero if the bar opens into enough
/// background pixels confirmed by the vertical cross-check (the fully
/// depleted case), and `None` otherwise.
pub open spec fn spec_find_border(pix: Map<(u32, u32), (u8, u8, u8)>, line: Scanline) -> Option<
    int,
> {
    let scanned = spec_border_scan(pix, line, 3, 0, 0, 0, None, 0, 0);
    match scanned.0 {
        Some(b) => Some(b),
        None => {
            if scanned.1 > 10 && (match scanned.2 {
                Some(f) => f < 4,
                None => false,
            }) {
                if spec_vertical_bg_count(pix, line, scanned.2->0) >= 3 {
                    Some(0)
                } else {
                    None
                }
            } else {
                None
            }
        },
    }
}

/// Walk the HP scanline from a fixed inset, counting consecutive fill
/// pixels of the dominant hue, then confirm a short border run followed by
/// a recognized non-fill pixel. Falls back to the depleted-bar cross-check
/// when the bar opens directly into background.
pub fn find_border(img: &FrameImage, line: &Scanline) -> (r: Option<u32>)
    requires
        line.in_frame(image_dims(*img)),
        line.y >= 2,
        line.y + 2 < image_dims(*img).1,
    ensures
        ({
            let fb = spec_find_border(image_pixels(*img), *line);
            match r {
                Some(b) => fb == Some(b as int) && b <= line.spec_width(),
                None => fb is None,
            }
        }),
{
    let ghost pix = image_pixels(*img);
    let ghost goal = spec_border_scan(pix, *line, 3, 0, 0, 0, None, 0, 0);
    let width = line.width();
    let mut yc: u32 = 0;
    let mut oc: u32 = 0;
    let mut bc: u32 = 0;
    let mut fbi: Option<u32> = None;
    let mut bdc: u32 = 0;
    let mut bdi: u32 = 0;
    let mut i: u32 = 3;

    // +1 to check a pixel just outside the HP bar.
    while i <= width
        invariant
            width == line.spec_width(),
            width < u32::MAX,
            line.in_frame(image_dims(*img)),
            pix == image_pixels(*img),
            3 <= i,
            yc <= i,
            oc <= i,
            bc <= i,
            bdc <= i,
            bdc >= 1 ==> bdi < i && bdi <= width,
            match fbi {
                Some(f) => f < i && f <= width,
                None => true,
            },
            spec_border_scan(
                pix,
                *line,
                i as int,
                yc as int,
                oc as int,
                bc as int,
                crate::common::opt_u32_int(fbi),
                bdc as int,
                bdi as int,
            ) == goal,
            goal == spec_border_scan(pix, *line, 3, 0, 0, 0, None::<int>, 0, 0),
        decreases width + 1 - i,
    {
        let x = line.x_at(i);
        let px = img.pixel(x, line.y);
        let hsv = rgb_to_hsv(px);
        proof {
            assert(sample_at(pix, *line, i as int) == px);
        }

        if oc < 8 && is_hp_yellow(hsv) {
            yc = yc + 1;
            bdc = 0;
        } else if yc < 8 && is_hp_orange(hsv) {
            oc = oc + 1;
            bdc = 0;
        } else if (yc >= oc && is_hp_border_white(hsv)) || (oc > yc && is_hp_border_orange(hsv)) {
            bdc = bdc + 1;
            bdi = i;
        } else {
            if (is_hp_bar_frame(hsv) || is_hp_background(hsv) || is_damage(hsv)
                || is_provisional_damage(hsv)) && 1 <= bdc && bdc <= 4 {
                proof {
                    assert(goal.0 == Some(bdi as int + 1));
                    assert(spec_find_border(pix, *line) == Some(bdi as int + 1));
                }
                return Some(bdi + 1);
            }
            if is_hp_background(hsv) {
                bc = bc + 1;
                if fbi.is_none() {
                    fbi = Some(i);
                }
            }
        }
        i = i + 1;
    }

    if bc > 10 && fbi.is_some() && fbi.unwrap() < 4 {
        let f = fbi.unwrap();
        let x = line.x_at(f);
        let mut bg_count: u32 = 0;
        if is_hp_background(rgb_to_hsv(img.pixel(x, line.y - 2))) {
            bg_count = bg_count + 1;
        }
        if is_hp_background(rgb_to_hsv(img.pixel(x, line.y - 1))) {
            bg_count = bg_count + 1;
        }
        if is_hp_background(rgb_to_hsv(img.pixel(x, line.y))) {
            bg_count = bg_count + 1;
        }
        if is_hp_background(rgb_to_hsv(img.pixel(x, line.y + 1))) {
            bg_count = bg_count + 1;
        }
        if is_hp_background(rgb_to_hsv(img.pixel(x, line.y + 2))) {
            bg_count = bg_count + 1;
        }
        if bg_count >= 3 {
            return Some(0);
        }
        return None;
    }

    None
}

/// The fill ratio of the HP bar via the border scan: the confirmed border
/// position over the scanline width.
pub open spec fn spec_analyze_hp(pix: Map<(u32, u32), (u8, u8, u8)>, line: Scanline) -> Option<
    int,
> {
    spec_find_border(pix, line)
}

/// Read one player's HP fill ratio from the frame, or `None` when
/// occlusion prevents a confident read.
pub fn analyze_hp(img: &FrameImage, line: &Scanline) -> (r: Option<Ratio>)
    requires
        line.in_frame(image_dims(*img)),
        line.spec_width() > 0,
        line.y >= 2,
        line.y + 2 < image_dims(*img).1,
    ensures
        ({
            let fb = spec_analyze_hp(image_pixels(*img), *line);
            match r {
                Some(rat) => fb == Some(rat.num as int) && rat.den == line.spec_width()
                    && rat.wf(),
                None => fb is None,
            }
        }),
{
    let border = find_border(img, line);
    match border {
        None => None,
        Some(b) => {
            let width = line.width();
            Some(Ratio::new(b, width))
        },
    }
}

} // verus!
