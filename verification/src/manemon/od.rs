use vstd::prelude::*;

use crate::analysis::{GaugeValue, OdValue};
use crate::common::{
    b2i, find_bar_boundary, rgb_to_hsv, sample_at, spec_find_bar_boundary, spec_rgb_to_hsv,
    BarSegment, Hsv, PixelClassifier, Scanline,
};
use crate::frame::{image_dims, image_pixels, FrameImage};
use crate::ratio::Ratio;

verus! {

/// Pixel width of each OD segment at the reference resolution (including
/// the white border).
pub const OD_SEG_WIDTH: u32 = 52;

/// Pixel width of each gap between OD segments at the reference resolution.
pub const OD_GAP_WIDTH: u32 = 3;

/// Vertical offset from the scanline up to the segment's top border row.
pub const OD_SEG_CEIL_OFFSET_Y: u32 = 8;

/// Vertical offset from the scanline down to the segment's bottom border
/// row.
pub const OD_SEG_FLOOR_OFFSET_Y: u32 = 7;

/// Classification of a single OD segment's fill state.
#[derive(Debug, Clone, Copy, PartialEq, Eq, Structural)]
pub enum OdSegmentState {
    /// Completely filled — interior renders near-white borders over a
    /// filled background.
    Full,
    /// Depleted: dark blue background at every sampled position.
    Empty,
    /// Partially filled with the measured fill ratio.
    Partial(Ratio),
    /// Gauge structure not visible (effects obscuring the segment).
    Unknown,
}

/// Near-white, low-saturation border of a full segment.
pub open spec fn spec_is_od_segment_full_border(hsv: Hsv) -> bool {
    hsv.s < 250 && hsv.v > 900
}

pub fn is_od_segment_full_border(hsv: Hsv) -> (r: bool)
    ensures
        r == spec_is_od_segment_full_border(hsv),
{
    hsv.s < 250 && hsv.v > 900
}

/// Interior of a full segment: light green above three bars, light orange
/// at or below three bars. Either is acceptable, never both.
pub open spec fn spec_is_od_segment_full_background(hsv: Hsv) -> bool {
    (hsv.h >= 72000 && hsv.h <= 105000 && hsv.s >= 800 && hsv.v >= 850) || (hsv.h >= 25000 && hsv.h
        <= 35000 && hsv.s >= 950 && hsv.v >= 950)
}

pub fn is_od_segment_full_background(hsv: Hsv) -> (r: bool)
    ensures
        r == spec_is_od_segment_full_background(hsv),
{
    if hsv.h >= 72000 && hsv.h <= 105000 && hsv.s >= 800 && hsv.v >= 850 {
        return true;
    }
    hsv.h >= 25000 && hsv.h <= 35000 && hsv.s >= 950 && hsv.v >= 950
}

/// Dark blue background sampled by the fast empty check.
pub open spec fn spec_is_od_empty_sample(hsv: Hsv) -> bool {
    hsv.h > 210000 && hsv.h < 230000 && hsv.s > 900 && hsv.v > 600
}

pub fn is_od_empty_sample(hsv: Hsv) -> (r: bool)
    ensures
        r == spec_is_od_empty_sample(hsv),
{
    hsv.h > 210000 && hsv.h < 230000 && hsv.s > 900 && hsv.v > 600
}

pub open spec fn spec_is_partial_fill_border_orange(hsv: Hsv) -> bool {
    hsv.h >= 30000 && hsv.h <= 60000 && hsv.s >= 200 && hsv.v >= 800
}

pub fn is_partial_fill_border_orange(hsv: Hsv) -> (r: bool)
    ensures
        r == spec_is_partial_fill_border_orange(hsv),
{
    hsv.h >= 30000 && hsv.h <= 60000 && hsv.s >= 200 && hsv.v >= 800
}

pub open spec fn spec_is_partial_fill_border_green(hsv: Hsv) -> bool {
    hsv.h > 95000 && hsv.h < 130000 && hsv.s > 500 && hsv.v > 800
}

pub fn is_partial_fill_border_green(hsv: Hsv) -> (r: bool)
    ensures
        r == spec_is_partial_fill_border_green(hsv),
{
    hsv.h > 95000 && hsv.h < 130000 && hsv.s > 500 && hsv.v > 800
}

/// Edge of the fill inside a partially filled segment, in either hue
/// family.
pub open spec fn spec_is_partial_fill_border(hsv: Hsv) -> bool {
    spec_is_partial_fill_border_green(hsv) || spec_is_partial_fill_border_orange(hsv)
}

pub fn is_partial_fill_border(hsv: Hsv) -> (r: bool)
    ensures
        r == spec_is_partial_fill_border(hsv),
{
    is_partial_fill_border_green(hsv) || is_partial_fill_border_orange(hsv)
}

pub open spec fn spec_is_partial_background_green(hsv: Hsv) -> bool {
    hsv.h > 110000 && hsv.h < 195000 && hsv.s > 950 && hsv.v > 300 && hsv.v < 450
}

pub fn is_partial_background_green(hsv: Hsv) -> (r: bool)
    ensures
        r == spec_is_partial_background_green(hsv),
{
    hsv.h > 110000 && hsv.h < 195000 && hsv.s > 950 && hsv.v > 300 && hsv.v < 450
}

/// Partial segment's slightly orange-tinted blue background, or its dim
/// orange variant.
pub open spec fn spec_is_partial_background_orange(hsv: Hsv) -> bool {
    (hsv.h > 210000 && hsv.h < 320000 && hsv.s > 150 && hsv.s < 650 && hsv.v > 300 && hsv.v < 600)
        || (hsv.h > 30000 && hsv.h < 60000 && hsv.s > 300 && hsv.v > 300 && hsv.v < 550)
}

pub fn is_partial_background_orange(hsv: Hsv) -> (r: bool)
    ensures
        r == spec_is_partial_background_orange(hsv),
{
    if hsv.h > 210000 && hsv.h < 320000 && hsv.s > 150 && hsv.s < 650 && hsv.v > 300 && hsv.v
        < 600 {
        return true;
    }
    hsv.h > 30000 && hsv.h < 60000 && hsv.s > 300 && hsv.v > 300 && hsv.v < 550
}

/// Depleted region just past the fill edge of a partial segment.
pub open spec fn spec_is_partial_background(hsv: Hsv) -> bool {
    spec_is_partial_background_orange(hsv) || spec_is_partial_background_green(hsv)
}

pub fn is_partial_background(hsv: Hsv) -> (r: bool)
    ensures
        r == spec_is_partial_background(hsv),
{
    is_partial_background_orange(hsv) || is_partial_background_green(hsv)
}

/// Recovered portion of the burnout gauge: near-white, very bright.
pub open spec fn spec_is_burnout_recovered(hsv: Hsv) -> bool {
    hsv.s < 50 && hsv.v > 800
}

pub fn is_burnout_recovered(hsv: Hsv) -> (r: bool)
    ensures
        r == spec_is_burnout_recovered(hsv),
{
    hsv.s < 50 && hsv.v > 800
}

/// Unrecovered portion of the burnout gauge: dark gray.
pub open spec fn spec_is_burnout_unrecovered(hsv: Hsv) -> bool {
    hsv.s < 150 && hsv.v < 500
}

pub fn is_burnout_unrecovered(hsv: Hsv) -> (r: bool)
    ensures
        r == spec_is_burnout_unrecovered(hsv),
{
    hsv.s < 150 && hsv.v < 500
}

/// The burnout classifier: recovered (near-white) is Foreground,
/// unrecovered (dark gray) is Background, anything else is occlusion.
pub struct BurnoutClassifier;

impl PixelClassifier for BurnoutClassifier {
    open spec fn spec_classify(&self, px: (u8, u8, u8)) -> BarSegment {
        let hsv = spec_rgb_to_hsv(px);
        if spec_is_burnout_recovered(hsv) {
            BarSegment::Foreground
        } else if spec_is_burnout_unrecovered(hsv) {
            BarSegment::Background
        } else {
            BarSegment::Unknown
        }
    }

    fn classify(&self, px: (u8, u8, u8)) -> (r: BarSegment) {
        let hsv = rgb_to_hsv(px);
        if is_burnout_recovered(hsv) {
            BarSegment::Foreground
        } else if is_burnout_unrecovered(hsv) {
            BarSegment::Background
        } else {
            BarSegment::Unknown
        }
    }
}

/// OD segment fill: green at high gauge.
pub open spec fn spec_is_od_green(hsv: Hsv) -> bool {
    hsv.h >= 70000 && hsv.h <= 120000 && hsv.s >= 750 && hsv.v >= 800
}

pub fn is_od_green(hsv: Hsv) -> (r: bool)
    ensures
        r == spec_is_od_green(hsv),
{
    hsv.h >= 70000 && hsv.h <= 120000 && hsv.s >= 750 && hsv.v >= 800
}

/// OD segment fill: orange at low gauge; the upper hue bound is extended
/// to capture yellow-orange edge pixels from sub-pixel blending.
pub open spec fn spec_is_od_orange(hsv: Hsv) -> bool {
    hsv.h >= 22000 && hsv.h <= 55000 && hsv.s >= 600 && hsv.v >= 700
}

pub fn is_od_orange(hsv: Hsv) -> (r: bool)
    ensures
        r == spec_is_od_orange(hsv),
{
    hsv.h >= 22000 && hsv.h <= 55000 && hsv.s >= 600 && hsv.v >= 700
}

/// Filled OD segment — either green (high gauge) or orange (low gauge).
pub open spec fn spec_is_od_filled(hsv: Hsv) -> bool {
    spec_is_od_green(hsv) || spec_is_od_orange(hsv)
}

pub fn is_od_filled(hsv: Hsv) -> (r: bool)
    ensures
        r == spec_is_od_filled(hsv),
{
    is_od_green(hsv) || is_od_orange(hsv)
}

/// Empty/depleted OD segment (dark blue, same family as SA empty).
pub open spec fn spec_is_od_empty(hsv: Hsv) -> bool {
    hsv.h >= 213000 && hsv.h <= 225000 && hsv.s >= 850 && hsv.v >= 550
}

pub fn is_od_empty(hsv: Hsv) -> (r: bool)
    ensures
        r == spec_is_od_empty(hsv),
{
    hsv.h >= 213000 && hsv.h <= 225000 && hsv.s >= 850 && hsv.v >= 550
}

/// OD gauge pixel — either filled or empty.
pub open spec fn spec_is_od_gauge_pixel(hsv: Hsv) -> bool {
    spec_is_od_filled(hsv) || spec_is_od_empty(hsv)
}

pub fn is_od_gauge_pixel(hsv: Hsv) -> (r: bool)
    ensures
        r == spec_is_od_gauge_pixel(hsv),
{
    is_od_filled(hsv) || is_od_empty(hsv)
}

/// The OD gauge pixel predicate as a value, for sample counting.
pub struct OdGaugePixel;

impl crate::common::HsvPredicate for OdGaugePixel {
    open spec fn spec_test(&self, hsv: Hsv) -> bool {
        spec_is_od_gauge_pixel(hsv)
    }

    fn test(&self, hsv: Hsv) -> (r: bool) {
        is_od_gauge_pixel(hsv)
    }
}

/// The horizontal center of a segment scanline.
pub open spec fn spec_center_x(seg: Scanline) -> int {
    (seg.x_start + seg.x_end) / 2
}

fn center_x(seg: &Scanline) -> (c: u32)
    ensures
        c == spec_center_x(*seg),
        seg.x_start <= c <= seg.x_end || seg.x_end <= c <= seg.x_start,
{
    (((seg.x_start as u64) + (seg.x_end as u64)) / 2) as u32
}

/// The HSV value of the pixel at `(x, y)`.
pub open spec fn hsv_at(pix: Map<(u32, u32), (u8, u8, u8)>, x: int, y: int) -> Hsv {
    spec_rgb_to_hsv(pix[(x as u32, y as u32)])
}

/// Fast full check: at least three of the four sampled border positions
/// (both ends, plus ceiling and floor at the horizontal center) are
/// near-white, and the segment's visual center shows a filled background.
pub open spec fn spec_is_segment_full_fast(pix: Map<(u32, u32), (u8, u8, u8)>, seg: Scanline) -> bool {
    let cx = spec_center_x(seg);
    let ceil_y = seg.y - OD_SEG_CEIL_OFFSET_Y;
    let floor_y = seg.y + OD_SEG_FLOOR_OFFSET_Y;
    let whites = b2i(spec_is_od_segment_full_border(hsv_at(pix, seg.x_start as int, seg.y as int)))
        + b2i(spec_is_od_segment_full_border(hsv_at(pix, seg.x_end as int, seg.y as int))) + b2i(
        spec_is_od_segment_full_border(hsv_at(pix, cx, ceil_y)),
    ) + b2i(spec_is_od_segment_full_border(hsv_at(pix, cx, floor_y)));
    whites >= 3 && spec_is_od_segment_full_background(hsv_at(pix, cx, seg.y as int))
}

pub fn is_segment_full_fast(img: &FrameImage, seg: &Scanline) -> (r: bool)
    requires
        seg.in_frame(image_dims(*img)),
        seg.y >= OD_SEG_CEIL_OFFSET_Y,
        seg.y + OD_SEG_FLOOR_OFFSET_Y < image_dims(*img).1,
    ensures
        r == spec_is_segment_full_fast(image_pixels(*img), *seg),
{
    let ceil_y = seg.y - OD_SEG_CEIL_OFFSET_Y;
    let floor_y = seg.y + OD_SEG_FLOOR_OFFSET_Y;
    let cx = center_x(seg);

    let mut whites: u32 = 0;
    if is_od_segment_full_border(rgb_to_hsv(img.pixel(seg.x_start, seg.y))) {
        whites = whites + 1;
    }
    if is_od_segment_full_border(rgb_to_hsv(img.pixel(seg.x_end, seg.y))) {
        whites = whites + 1;
    }
    if is_od_segment_full_border(rgb_to_hsv(img.pixel(cx, ceil_y))) {
        whites = whites + 1;
    }
    if is_od_segment_full_border(rgb_to_hsv(img.pixel(cx, floor_y))) {
        whites = whites + 1;
    }
    if whites < 3 {
        return false;
    }
    is_od_segment_full_background(rgb_to_hsv(img.pixel(cx, seg.y)))
}

/// Fast empty check: at least four of the five sampled positions show the
/// dark blue depleted background.
pub open spec fn spec_is_segment_empty_fast(pix: Map<(u32, u32), (u8, u8, u8)>, seg: Scanline) -> bool {
    let cx = spec_center_x(seg);
    let ceil_y = seg.y - OD_SEG_CEIL_OFFSET_Y;
    let floor_y = seg.y + OD_SEG_FLOOR_OFFSET_Y;
    b2i(spec_is_od_empty_sample(hsv_at(pix, seg.x_start as int, seg.y as int))) + b2i(
        spec_is_od_empty_sample(hsv_at(pix, seg.x_end as int, seg.y as int)),
    ) + b2i(spec_is_od_empty_sample(hsv_at(pix, cx, ceil_y))) + b2i(
        spec_is_od_empty_sample(hsv_at(pix, cx, floor_y)),
    ) + b2i(spec_is_od_empty_sample(hsv_at(pix, cx, seg.y as int))) >= 4
}

pub fn is_segment_empty_fast(img: &FrameImage, seg: &Scanline) -> (r: bool)
    requires
        seg.in_frame(image_dims(*img)),
        seg.y >= OD_SEG_CEIL_OFFSET_Y,
        seg.y + OD_SEG_FLOOR_OFFSET_Y < image_dims(*img).1,
    ensures
        r == spec_is_segment_empty_fast(image_pixels(*img), *seg),
{
    let ceil_y = seg.y - OD_SEG_CEIL_OFFSET_Y;
    let floor_y = seg.y + OD_SEG_FLOOR_OFFSET_Y;
    let cx = center_x(seg);

    let mut blues: u32 = 0;
    if is_od_empty_sample(rgb_to_hsv(img.pixel(seg.x_start, seg.y))) {
        blues = blues + 1;
    }
    if is_od_empty_sample(rgb_to_hsv(img.pixel(seg.x_end, seg.y))) {
        blues = blues + 1;
    }
    if is_od_empty_sample(rgb_to_hsv(img.pixel(cx, ceil_y))) {
        blues = blues + 1;
    }
    if is_od_empty_sample(rgb_to_hsv(img.pixel(cx, floor_y))) {
        blues = blues + 1;
    }
    if is_od_empty_sample(rgb_to_hsv(img.pixel(cx, seg.y))) {
        blues = blues + 1;
    }
    blues >= 4
}

/// A column of the exhaustive full scan counts when both vertical border
/// offsets are border-colored and the center row shows a filled background.
pub open spec fn spec_full_col(pix: Map<(u32, u32), (u8, u8, u8)>, seg: Scanline, i: int) -> bool {
    let x = seg.spec_x_at(i);
    spec_is_od_segment_full_border(hsv_at(pix, x, seg.y - OD_SEG_CEIL_OFFSET_Y))
        && spec_is_od_segment_full_border(hsv_at(pix, x, seg.y + OD_SEG_FLOOR_OFFSET_Y))
        && spec_is_od_segment_full_background(hsv_at(pix, x, seg.y as int))
}

/// How many full columns lie in positions `[i, width)` of the segment.
pub open spec fn spec_full_cols_from(pix: Map<(u32, u32), (u8, u8, u8)>, seg: Scanline, i: int) -> int
    decreases seg.spec_width() - i,
{
    if i < 0 || i >= seg.spec_width() {
        0
    } else {
        b2i(spec_full_col(pix, seg, i)) + spec_full_cols_from(pix, seg, i + 1)
    }
}

proof fn lemma_full_cols_from_nonneg(pix: Map<(u32, u32), (u8, u8, u8)>, seg: Scanline, i: int)
    ensures
        spec_full_cols_from(pix, seg, i) >= 0,
    decreases seg.spec_width() - i,
{
    if 0 <= i < seg.spec_width() {
        lemma_full_cols_from_nonneg(pix, seg, i + 1);
    }
}

/// Exhaustive full check: the segment is full when at least four columns
/// show border above and below a filled center.
pub open spec fn spec_is_segment_full(pix: Map<(u32, u32), (u8, u8, u8)>, seg: Scanline) -> bool {
    spec_full_cols_from(pix, seg, 0) >= 4
}

pub fn is_segment_full(img: &FrameImage, seg: &Scanline) -> (r: bool)
    requires
        seg.in_frame(image_dims(*img)),
        seg.y >= OD_SEG_CEIL_OFFSET_Y,
        seg.y + OD_SEG_FLOOR_OFFSET_Y < image_dims(*img).1,
    ensures
        r == spec_is_segment_full(image_pixels(*img), *seg),
{
    let ghost pix = image_pixels(*img);
    let width = seg.width();
    let mut full_count: u32 = 0;
    let mut i: u32 = 0;
    while i < width
        invariant
            width == seg.spec_width(),
            seg.in_frame(image_dims(*img)),
            seg.y >= OD_SEG_CEIL_OFFSET_Y,
            seg.y + OD_SEG_FLOOR_OFFSET_Y < image_dims(*img).1,
            pix == image_pixels(*img),
            i <= width,
            full_count <= 3,
            spec_full_cols_from(pix, *seg, 0) == full_count + spec_full_cols_from(pix, *seg, i as int),
        decreases width - i,
    {
        let x = seg.x_at(i);
        let ceil_ok = is_od_segment_full_border(rgb_to_hsv(img.pixel(x, seg.y - OD_SEG_CEIL_OFFSET_Y)));
        let floor_ok = is_od_segment_full_border(rgb_to_hsv(img.pixel(x, seg.y + OD_SEG_FLOOR_OFFSET_Y)));
        let bg_ok = is_od_segment_full_background(rgb_to_hsv(img.pixel(x, seg.y)));
        if ceil_ok && floor_ok && bg_ok {
            full_count = full_count + 1;
            if full_count >= 4 {
                proof {
                    lemma_full_cols_from_nonneg(pix, *seg, i as int + 1);
                }
                return true;
            }
        }
        i = i + 1;
    }
    proof {
        assert(spec_full_cols_from(pix, *seg, width as int) == 0);
    }
    false
}

/// A position matches the partial-fill pattern when the pixel, the row
/// above and the row below are all fill-border colored and the next
/// position along the scan is partial background.
pub open spec fn spec_partial_pattern(pix: Map<(u32, u32), (u8, u8, u8)>, seg: Scanline, i: int) -> bool {
    let x = seg.spec_x_at(i);
    let nx = seg.spec_x_at(i + 1);
    spec_is_partial_fill_border(hsv_at(pix, x, seg.y as int)) && spec_is_partial_fill_border(
        hsv_at(pix, x, seg.y - 1),
    ) && spec_is_partial_fill_border(hsv_at(pix, x, seg.y + 1)) && spec_is_partial_background(
        hsv_at(pix, nx, seg.y as int),
    )
}

/// The first position in `[i, width)` matching the partial-fill pattern.
pub open spec fn spec_first_partial(pix: Map<(u32, u32), (u8, u8, u8)>, seg: Scanline, i: int) -> Option<int>
    decreases seg.spec_width() - i,
{
    if i < 0 || i >= seg.spec_width() {
        None
    } else if spec_partial_pattern(pix, seg, i) {
        Some(i)
    } else {
        spec_first_partial(pix, seg, i + 1)
    }
}

/// Search left-to-right for the sub-pixel fill boundary of a partially
/// filled segment; the fill ratio is the matched position over the
/// segment width.
pub fn read_maybe_partial_segment(img: &FrameImage, seg: &Scanline) -> (r: Option<Ratio>)
    requires
        seg.in_frame(image_dims(*img)),
        seg.spec_width() > 0,
        seg.y >= 1,
        seg.y + 1 < image_dims(*img).1,
    ensures
        ({
            let fp = spec_first_partial(image_pixels(*img), *seg, 0);
            match r {
                Some(rat) => fp == Some(rat.num as int) && rat.den == seg.spec_width() && rat.wf()
                    && !rat.is_one(),
                None => fp is None,
            }
        }),
{
    let ghost pix = image_pixels(*img);
    let width = seg.width();
    let mut i: u32 = 0;
    while i < width
        invariant
            width == seg.spec_width(),
            seg.in_frame(image_dims(*img)),
            seg.y >= 1,
            seg.y + 1 < image_dims(*img).1,
            pix == image_pixels(*img),
            i <= width,
            spec_first_partial(pix, *seg, 0) == spec_first_partial(pix, *seg, i as int),
        decreases width - i,
    {
        let x = seg.x_at(i);
        let nx = seg.x_at(i + 1);
        let x_ok = is_partial_fill_border(rgb_to_hsv(img.pixel(x, seg.y)));
        let upper_ok = is_partial_fill_border(rgb_to_hsv(img.pixel(x, seg.y - 1)));
        let lower_ok = is_partial_fill_border(rgb_to_hsv(img.pixel(x, seg.y + 1)));
        let next_ok = is_partial_background(rgb_to_hsv(img.pixel(nx, seg.y)));
        if x_ok && upper_ok && lower_ok && next_ok {
            return Some(Ratio::new(i, width));
        }
        i = i + 1;
    }
    None
}

/// Classify a single OD segment, trying each heuristic in priority order
/// and stopping at the first confident result; a segment matching no
/// heuristic defaults to Unknown.
pub open spec fn spec_classify_od_segment(pix: Map<(u32, u32), (u8, u8, u8)>, seg: Scanline) -> OdSegmentState {
    if spec_is_segment_full_fast(pix, seg) {
        OdSegmentState::Full
    } else if spec_is_segment_empty_fast(pix, seg) {
        OdSegmentState::Empty
    } else if spec_is_segment_full(pix, seg) {
        OdSegmentState::Full
    } else {
        match spec_first_partial(pix, seg, 0) {
            Some(n) => OdSegmentState::Partial(
                Ratio { num: n as u32, den: seg.spec_width() as u32 },
            ),
            None => OdSegmentState::Unknown,
        }
    }
}

pub fn classify_od_segment(img: &FrameImage, seg: &Scanline) -> (r: OdSegmentState)
    requires
        seg.in_frame(image_dims(*img)),
        seg.spec_width() > 0,
        seg.y >= OD_SEG_CEIL_OFFSET_Y,
        seg.y + OD_SEG_FLOOR_OFFSET_Y < image_dims(*img).1,
    ensures
        r == spec_classify_od_segment(image_pixels(*img), *seg),
        match r {
            OdSegmentState::Partial(p) => p.wf() && !p.is_one(),
            _ => true,
        },
{
    if is_segment_full_fast(img, seg) {
        return OdSegmentState::Full;
    }
    if is_segment_empty_fast(img, seg) {
        return OdSegmentState::Empty;
    }
    if is_segment_full(img, seg) {
        return OdSegmentState::Full;
    }
    match read_maybe_partial_segment(img, seg) {
        Some(ratio) => OdSegmentState::Partial(ratio),
        None => OdSegmentState::Unknown,
    }
}

/// Every Partial state in the sequence carries a well-formed fill ratio
/// strictly below one.
pub open spec fn partials_wf(states: Seq<OdSegmentState>) -> bool {
    forall|i: int|
        0 <= i < states.len() ==> match #[trigger] states[i] {
            OdSegmentState::Partial(p) => p.wf() && !p.is_one(),
            _ => true,
        }
}

/// The walk over per-segment states from segment `i` with the previous
/// segment's state: the first Empty segment after a Full one yields its
/// index, the first Partial yields its index plus the fill, a walk ending
/// in Full yields the full gauge, and any other end is unreadable.
pub open spec fn spec_od_walk(states: Seq<OdSegmentState>, i: int, last: OdSegmentState) -> Option<OdValue>
    decreases states.len() - i,
{
    if i < 0 || i >= states.len() {
        if last == OdSegmentState::Full {
            Some(OdValue::Normal(GaugeValue { whole: states.len() as u32, frac: Ratio { num: 0u32, den: 1u32 } }))
        } else {
            None
        }
    } else {
        match states[i] {
            OdSegmentState::Full => spec_od_walk(states, i + 1, OdSegmentState::Full),
            OdSegmentState::Empty => {
                if last == OdSegmentState::Full {
                    Some(OdValue::Normal(GaugeValue { whole: i as u32, frac: Ratio { num: 0u32, den: 1u32 } }))
                } else {
                    spec_od_walk(states, i + 1, OdSegmentState::Empty)
                }
            },
            OdSegmentState::Partial(p) => Some(OdValue::Normal(GaugeValue { whole: i as u32, frac: p })),
            OdSegmentState::Unknown => spec_od_walk(states, i + 1, OdSegmentState::Unknown),
        }
    }
}

/// The overall gauge value of a sequence of segment states.
pub open spec fn spec_od_value_from_states(states: Seq<OdSegmentState>) -> Option<OdValue> {
    spec_od_walk(states, 0, OdSegmentState::Full)
}

/// Walk the segment states in order and derive the overall gauge value.
pub fn od_value_from_states(states: &Vec<OdSegmentState>) -> (r: Option<OdValue>)
    requires
        states@.len() <= u32::MAX,
    ensures
        r == spec_od_value_from_states(states@),
        partials_wf(states@) ==> match r {
            Some(OdValue::Normal(v)) => v.wf(states@.len() as u32),
            Some(OdValue::Burnout(_)) => false,
            None => true,
        },
{
    proof {
        lemma_od_walk_wf(states@, 0, OdSegmentState::Full);
    }
    let n = states.len();
    let mut last = OdSegmentState::Full;
    let mut i: usize = 0;
    while i < n
        invariant
            n == states@.len(),
            n <= u32::MAX,
            i <= n,
            spec_od_value_from_states(states@) == spec_od_walk(states@, i as int, last),
        decreases n - i,
    {
        let state = states[i];
        match state {
            OdSegmentState::Full => {},
            OdSegmentState::Empty => {
                if last == OdSegmentState::Full {
                    return Some(
                        OdValue::Normal(GaugeValue { whole: i as u32, frac: Ratio::zero() }),
                    );
                }
            },
            OdSegmentState::Partial(p) => {
                return Some(OdValue::Normal(GaugeValue { whole: i as u32, frac: p }));
            },
            OdSegmentState::Unknown => {},
        }
        last = state;
        i = i + 1;
    }
    if last == OdSegmentState::Full {
        return Some(OdValue::Normal(GaugeValue { whole: n as u32, frac: Ratio::zero() }));
    }
    None
}

/// When every Partial state is well formed, the walk only ever produces a
/// well-formed Normal reading bounded by the number of segments.
proof fn lemma_od_walk_wf(states: Seq<OdSegmentState>, i: int, last: OdSegmentState)
    requires
        states.len() <= u32::MAX,
        0 <= i,
    ensures
        partials_wf(states) ==> match spec_od_walk(states, i, last) {
            Some(OdValue::Normal(v)) => v.wf(states.len() as u32),
            Some(OdValue::Burnout(_)) => false,
            None => true,
        },
    decreases states.len() - i,
{
    if 0 <= i < states.len() {
        lemma_od_walk_wf(states, i + 1, OdSegmentState::Full);
        lemma_od_walk_wf(states, i + 1, OdSegmentState::Empty);
        lemma_od_walk_wf(states, i + 1, OdSegmentState::Unknown);
    }
}

/// A run of Full segments followed immediately by an Empty segment reads
/// as exactly the index of the first Empty segment.
pub proof fn lemma_full_run_then_empty(states: Seq<OdSegmentState>, k: int)
    requires
        0 <= k < states.len(),
        forall|j: int| 0 <= j < k ==> states[j] == OdSegmentState::Full,
        states[k] == OdSegmentState::Empty,
    ensures
        spec_od_value_from_states(states) == Some(
            OdValue::Normal(GaugeValue { whole: k as u32, frac: Ratio { num: 0u32, den: 1u32 } }),
        ),
{
    lemma_full_run_walk(states, k, 0);
}

proof fn lemma_full_run_walk(states: Seq<OdSegmentState>, k: int, i: int)
    requires
        0 <= i <= k < states.len(),
        forall|j: int| 0 <= j < k ==> states[j] == OdSegmentState::Full,
        states[k] == OdSegmentState::Empty,
    ensures
        spec_od_walk(states, i, OdSegmentState::Full) == Some(
            OdValue::Normal(GaugeValue { whole: k as u32, frac: Ratio { num: 0u32, den: 1u32 } }),
        ),
    decreases k - i,
{
    if i < k {
        lemma_full_run_walk(states, k, i + 1);
    }
}

/// Detect burnout by sampling five evenly spaced points along the gauge:
/// normal gauge pixels are saturated, burnout pixels (bright recovered or
/// dark unrecovered) are not. All five below the threshold means burnout.
pub open spec fn spec_is_burnout(pix: Map<(u32, u32), (u8, u8, u8)>, od: Scanline) -> bool {
    let w = od.spec_width();
    &&& !(spec_rgb_to_hsv(sample_at(pix, od, w * 1 / 6)).s > 500)
    &&& !(spec_rgb_to_hsv(sample_at(pix, od, w * 2 / 6)).s > 500)
    &&& !(spec_rgb_to_hsv(sample_at(pix, od, w * 3 / 6)).s > 500)
    &&& !(spec_rgb_to_hsv(sample_at(pix, od, w * 4 / 6)).s > 500)
    &&& !(spec_rgb_to_hsv(sample_at(pix, od, w * 5 / 6)).s > 500)
}

pub fn is_burnout(img: &FrameImage, od: &Scanline) -> (r: bool)
    requires
        od.in_frame(image_dims(*img)),
    ensures
        r == spec_is_burnout(image_pixels(*img), *od),
{
    let width = od.width();
    proof {
        crate::ratio::lemma_mul_div_le(1, width as int, 6);
        crate::ratio::lemma_mul_div_le(2, width as int, 6);
        crate::ratio::lemma_mul_div_le(3, width as int, 6);
        crate::ratio::lemma_mul_div_le(4, width as int, 6);
        crate::ratio::lemma_mul_div_le(5, width as int, 6);
        assert(width as int * 1 == 1 * width as int);
        assert(width as int * 2 == 2 * width as int);
        assert(width as int * 3 == 3 * width as int);
        assert(width as int * 4 == 4 * width as int);
        assert(width as int * 5 == 5 * width as int);
    }
    let s1 = rgb_to_hsv(img.pixel(od.x_at(((width as u64) * 1 / 6) as u32), od.y)).s;
    let s2 = rgb_to_hsv(img.pixel(od.x_at(((width as u64) * 2 / 6) as u32), od.y)).s;
    let s3 = rgb_to_hsv(img.pixel(od.x_at(((width as u64) * 3 / 6) as u32), od.y)).s;
    let s4 = rgb_to_hsv(img.pixel(od.x_at(((width as u64) * 4 / 6) as u32), od.y)).s;
    let s5 = rgb_to_hsv(img.pixel(od.x_at(((width as u64) * 5 / 6) as u32), od.y)).s;
    !(s1 > 500) && !(s2 > 500) && !(s3 > 500) && !(s4 > 500) && !(s5 > 500)
}

/// The burnout recovery reading: the scanner's boundary between the
/// near-white recovered part and the dark unrecovered part, or zero when
/// the gauge is uniformly dark (just entered burnout). Never unreadable.
pub open spec fn spec_read_burnout_recovery(pix: Map<(u32, u32), (u8, u8, u8)>, od: Scanline) -> OdValue {
    match spec_find_bar_boundary(pix, od, BurnoutClassifier) {
        Some(n) => OdValue::Burnout(Ratio { num: n as u32, den: od.spec_width() as u32 }),
        None => OdValue::Burnout(Ratio { num: 0u32, den: 1u32 }),
    }
}

/// Measure burnout recovery progress (zero just entered, one fully
/// recovered).
pub fn read_burnout_recovery(img: &FrameImage, od: &Scanline) -> (r: OdValue)
    requires
        od.in_frame(image_dims(*img)),
        od.spec_width() > 0,
    ensures
        r == spec_read_burnout_recovery(image_pixels(*img), *od),
        match r {
            OdValue::Burnout(b) => b.wf(),
            OdValue::Normal(_) => false,
        },
{
    match find_bar_boundary(img, od, &BurnoutClassifier) {
        Some(fill) => OdValue::Burnout(fill),
        None => OdValue::Burnout(Ratio::zero()),
    }
}

/// P1 OD (Drive) gauge scanline at the reference resolution. Scans
/// right-to-left because the gauge depletes from the outer edge (left)
/// toward center (right).
pub open spec fn spec_p1_od_gauge() -> Scanline {
    Scanline { x_start: 888u32, x_end: 561u32, y: 122u32 }
}

pub fn p1_od_gauge() -> (s: Scanline)
    ensures
        s == spec_p1_od_gauge(),
{
    Scanline { x_start: 888, x_end: 561, y: 122 }
}

/// P2 OD gauge — horizontal mirror of P1.
pub open spec fn spec_p2_od_gauge() -> Scanline {
    Scanline {
        x_start: (super::REF_WIDTH - 888) as u32,
        x_end: (super::REF_WIDTH - 561) as u32,
        y: 122u32,
    }
}

pub fn p2_od_gauge() -> (s: Scanline)
    ensures
        s == spec_p2_od_gauge(),
{
    Scanline { x_start: super::REF_WIDTH - 888, x_end: super::REF_WIDTH - 561, y: 122 }
}

/// The i-th of the six fixed-width segment scanlines that partition an OD
/// gauge scanline, following the gauge's scan direction.
pub open spec fn spec_od_segment_line(od: Scanline, i: int) -> Scanline {
    let step = (OD_SEG_WIDTH + OD_GAP_WIDTH) as int;
    if od.x_end > od.x_start {
        Scanline {
            x_start: (od.x_start + i * step) as u32,
            x_end: (od.x_start + i * step + OD_SEG_WIDTH) as u32,
            y: od.y,
        }
    } else {
        Scanline {
            x_start: (od.x_start - i * step) as u32,
            x_end: (od.x_start - i * step - OD_SEG_WIDTH) as u32,
            y: od.y,
        }
    }
}

/// Split an OD gauge scanline into its six segment scanlines, derived once
/// from the segment width and gap constants.
pub fn split_scanline_for_segments(od_scanline: &Scanline) -> (v: Vec<Scanline>)
    requires
        od_scanline.x_end > od_scanline.x_start ==> od_scanline.x_start + 5 * (OD_SEG_WIDTH
            + OD_GAP_WIDTH) + OD_SEG_WIDTH <= u32::MAX,
        od_scanline.x_end <= od_scanline.x_start ==> od_scanline.x_start >= 5 * (OD_SEG_WIDTH
            + OD_GAP_WIDTH) + OD_SEG_WIDTH,
    ensures
        v@.len() == 6,
        forall|i: int| 0 <= i < 6 ==> v@[i] == spec_od_segment_line(*od_scanline, i),
{
    let mut v: Vec<Scanline> = Vec::new();
    let step = OD_SEG_WIDTH + OD_GAP_WIDTH;
    let mut i: u32 = 0;
    while i < 6
        invariant
            od_scanline.x_end > od_scanline.x_start ==> od_scanline.x_start + 5 * (OD_SEG_WIDTH
                + OD_GAP_WIDTH) + OD_SEG_WIDTH <= u32::MAX,
            od_scanline.x_end <= od_scanline.x_start ==> od_scanline.x_start >= 5 * (OD_SEG_WIDTH
                + OD_GAP_WIDTH) + OD_SEG_WIDTH,
            step == OD_SEG_WIDTH + OD_GAP_WIDTH,
            i <= 6,
            v@.len() == i,
            forall|j: int| 0 <= j < i ==> v@[j] == spec_od_segment_line(*od_scanline, j),
        decreases 6 - i,
    {
        proof {
            assert(i as int * step as int <= 275) by (nonlinear_arith)
                requires
                    0 <= i as int <= 5,
                    step as int == 55;
        }
        let seg = if od_scanline.x_end > od_scanline.x_start {
            let s = od_scanline.x_start + i * step;
            Scanline { x_start: s, x_end: s + OD_SEG_WIDTH, y: od_scanline.y }
        } else {
            let s = od_scanline.x_start - i * step;
            Scanline { x_start: s, x_end: s - OD_SEG_WIDTH, y: od_scanline.y }
        };
        v.push(seg);
        i = i + 1;
    }
    v
}

/// The six P1 OD segment scanlines.
pub fn get_p1_od_segments() -> (v: Vec<Scanline>)
    ensures
        v@.len() == 6,
        forall|i: int| 0 <= i < 6 ==> v@[i] == spec_od_segment_line(spec_p1_od_gauge(), i),
{
    let gauge = p1_od_gauge();
    split_scanline_for_segments(&gauge)
}

/// The six P2 OD segment scanlines.
pub fn get_p2_od_segments() -> (v: Vec<Scanline>)
    ensures
        v@.len() == 6,
        forall|i: int| 0 <= i < 6 ==> v@[i] == spec_od_segment_line(spec_p2_od_gauge(), i),
{
    let gauge = p2_od_gauge();
    split_scanline_for_segments(&gauge)
}

/// Every OD segment scanline lies inside the reference frame with room
/// for the vertical border offsets.
proof fn lemma_od_segment_in_frame(player_one: bool, j: int)
    requires
        0 <= j < 6,
    ensures
        ({
            let seg = spec_od_segment_line(spec_od_scan_line(player_one), j);
            &&& seg.in_frame((1920u32, 1080u32))
            &&& seg.spec_width() > 0
            &&& seg.y >= OD_SEG_CEIL_OFFSET_Y
            &&& seg.y + OD_SEG_FLOOR_OFFSET_Y < 1080
        }),
{
    assert(0 <= j * 55 <= 275) by (nonlinear_arith)
        requires
            0 <= j <= 5;
    assert(j * ((OD_SEG_WIDTH + OD_GAP_WIDTH) as int) == j * 55);
}

/// The OD gauge scanline of the given player.
pub open spec fn spec_od_scan_line(player_one: bool) -> Scanline {
    if player_one {
        spec_p1_od_gauge()
    } else {
        spec_p2_od_gauge()
    }
}

/// The six segment states of the given player's gauge.
pub open spec fn spec_od_states(pix: Map<(u32, u32), (u8, u8, u8)>, player_one: bool) -> Seq<OdSegmentState> {
    Seq::new(6, |i: int| spec_classify_od_segment(pix, spec_od_segment_line(spec_od_scan_line(player_one), i)))
}

/// The OD reading of one player: the burnout recovery value when the
/// burnout check fires (segments are not evaluated at all), otherwise the
/// gauge value derived from the six segment states.
pub open spec fn spec_read_od_value(pix: Map<(u32, u32), (u8, u8, u8)>, player_one: bool) -> Option<OdValue> {
    let line = spec_od_scan_line(player_one);
    if spec_is_burnout(pix, line) {
        Some(spec_read_burnout_recovery(pix, line))
    } else {
        spec_od_value_from_states(spec_od_states(pix, player_one))
    }
}

/// Read one player's OD gauge value by classifying each of the six
/// segments and walking them in order, after checking for the burnout
/// sub-mode.
pub fn read_od_value(img: &FrameImage, player_one: bool) -> (r: Option<OdValue>)
    requires
        image_dims(*img) == (1920u32, 1080u32),
    ensures
        r == spec_read_od_value(image_pixels(*img), player_one),
        match r {
            Some(OdValue::Normal(v)) => v.wf(6),
            Some(OdValue::Burnout(b)) => b.wf(),
            None => true,
        },
{
    let ghost pix = image_pixels(*img);
    let od = if player_one {
        p1_od_gauge()
    } else {
        p2_od_gauge()
    };

    if is_burnout(img, &od) {
        return Some(read_burnout_recovery(img, &od));
    }

    let segs = if player_one {
        get_p1_od_segments()
    } else {
        get_p2_od_segments()
    };

    let mut states: Vec<OdSegmentState> = Vec::new();
    let mut i: usize = 0;
    while i < 6
        invariant
            image_dims(*img) == (1920u32, 1080u32),
            pix == image_pixels(*img),
            od == spec_od_scan_line(player_one),
            segs@.len() == 6,
            forall|j: int| 0 <= j < 6 ==> segs@[j] == spec_od_segment_line(od, j),
            i <= 6,
            states@.len() == i,
            forall|j: int| 0 <= j < i ==> states@[j] == spec_classify_od_segment(pix, segs@[j]),
            partials_wf(states@),
        decreases 6 - i,
    {
        proof {
            lemma_od_segment_in_frame(player_one, i as int);
        }
        let state = classify_od_segment(img, &segs[i]);
        states.push(state);
        i = i + 1;
    }

    proof {
        assert(states@ =~= spec_od_states(pix, player_one));
    }
    od_value_from_states(&states)
}

} // verus!
