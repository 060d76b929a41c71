use vstd::prelude::*;

use crate::analysis::GaugeValue;
use crate::common::{
    b2i, find_bar_boundary, rgb_to_hsv, spec_find_bar_boundary, spec_rgb_to_hsv, BarSegment, Hsv,
    PixelClassifier, Scanline,
};
use crate::frame::{image_dims, image_pixels, FrameImage};
use crate::ratio::Ratio;

verus! {

/// Golden "CA ready" text overlay: a warm hue distinct from the digit
/// outline yellow and the digit fill blue.
pub open spec fn spec_is_ca_text_pixel(px: (u8, u8, u8)) -> bool {
    let hsv = spec_rgb_to_hsv(px);
    hsv.h >= 25000 && hsv.h <= 50000 && hsv.s >= 500 && hsv.v >= 600
}

pub fn is_ca_text_pixel(px: (u8, u8, u8)) -> (r: bool)
    ensures
        r == spec_is_ca_text_pixel(px),
{
    let hsv = rgb_to_hsv(px);
    hsv.h >= 25000 && hsv.h <= 50000 && hsv.s >= 500 && hsv.v >= 600
}

/// Blue interior fill of SA stock digit glyphs.
pub open spec fn spec_is_digit_fill_pixel(hsv: Hsv) -> bool {
    hsv.h >= 200000 && hsv.h <= 230000 && hsv.s >= 700 && hsv.v >= 700
}

pub fn is_digit_fill_pixel(hsv: Hsv) -> (r: bool)
    ensures
        r == spec_is_digit_fill_pixel(hsv),
{
    hsv.h >= 200000 && hsv.h <= 230000 && hsv.s >= 700 && hsv.v >= 700
}

/// Yellow/gold outline of SA stock digit glyphs.
pub open spec fn spec_is_digit_outline_pixel(hsv: Hsv) -> bool {
    hsv.h >= 55000 && hsv.h <= 75000 && hsv.s >= 250 && hsv.v >= 750
}

pub fn is_digit_outline_pixel(hsv: Hsv) -> (r: bool)
    ensures
        r == spec_is_digit_outline_pixel(hsv),
{
    hsv.h >= 55000 && hsv.h <= 75000 && hsv.s >= 250 && hsv.v >= 750
}

/// Depleted SA gauge background. Same hue as the HP bar background, with a
/// value floor to reject the VS screen's dim blue.
pub open spec fn spec_is_gauge_empty(hsv: Hsv) -> bool {
    hsv.h > 215000 && hsv.h < 222000 && hsv.s > 950 && hsv.v >= 600
}

pub fn is_gauge_empty(hsv: Hsv) -> (r: bool)
    ensures
        r == spec_is_gauge_empty(hsv),
{
    hsv.h > 215000 && hsv.h < 222000 && hsv.s > 950 && hsv.v >= 600
}

/// SA gauge filled — one side renders pink, the other cyan.
pub open spec fn spec_is_gauge_sa(hsv: Hsv) -> bool {
    (hsv.h >= 320000 || (hsv.h >= 175000 && hsv.h <= 210000)) && hsv.s >= 150 && hsv.v >= 800
}

pub fn is_gauge_sa(hsv: Hsv) -> (r: bool)
    ensures
        r == spec_is_gauge_sa(hsv),
{
    let p1_pink = hsv.h >= 320000;
    let p2_cyan = hsv.h >= 175000 && hsv.h <= 210000;
    (p1_pink || p2_cyan) && hsv.s >= 150 && hsv.v >= 800
}

/// CA ready overlay on the gauge bar.
pub open spec fn spec_is_gauge_ca(hsv: Hsv) -> bool {
    hsv.h >= 300000 && hsv.h <= 345000 && hsv.s >= 150 && hsv.v >= 850
}

pub fn is_gauge_ca(hsv: Hsv) -> (r: bool)
    ensures
        r == spec_is_gauge_ca(hsv),
{
    hsv.h >= 300000 && hsv.h <= 345000 && hsv.s >= 150 && hsv.v >= 850
}

/// SA gauge pixel — any recognized gauge state.
pub open spec fn spec_is_sa_gauge_pixel(hsv: Hsv) -> bool {
    spec_is_gauge_empty(hsv) || spec_is_gauge_sa(hsv) || spec_is_gauge_ca(hsv)
}

pub fn is_sa_gauge_pixel(hsv: Hsv) -> (r: bool)
    ensures
        r == spec_is_sa_gauge_pixel(hsv),
{
    is_gauge_empty(hsv) || is_gauge_sa(hsv) || is_gauge_ca(hsv)
}

/// The SA gauge pixel predicate as a value, for sample counting.
pub struct SaGaugePixel;

impl crate::common::HsvPredicate for SaGaugePixel {
    open spec fn spec_test(&self, hsv: Hsv) -> bool {
        spec_is_sa_gauge_pixel(hsv)
    }

    fn test(&self, hsv: Hsv) -> (r: bool) {
        is_sa_gauge_pixel(hsv)
    }
}

/// The SA bar classifier: filled gauge is Foreground, depleted background
/// is Background, anything else is occlusion.
pub struct SaBarClassifier;

impl PixelClassifier for SaBarClassifier {
    open spec fn spec_classify(&self, px: (u8, u8, u8)) -> BarSegment {
        let hsv = spec_rgb_to_hsv(px);
        if spec_is_gauge_sa(hsv) {
            BarSegment::Foreground
        } else if spec_is_gauge_empty(hsv) {
            BarSegment::Background
        } else {
            BarSegment::Unknown
        }
    }

    fn classify(&self, px: (u8, u8, u8)) -> (r: BarSegment) {
        let hsv = rgb_to_hsv(px);
        if is_gauge_sa(hsv) {
            BarSegment::Foreground
        } else if is_gauge_empty(hsv) {
            BarSegment::Background
        } else {
            BarSegment::Unknown
        }
    }
}

pub open spec fn clamp_i(v: int, lo: int, hi: int) -> int {
    if v < lo {
        lo
    } else if v > hi {
        hi
    } else {
        v
    }
}

/// The pixel sampled at offset `(dx, dy)` from `(cx, cy)`, clamped to the
/// image bounds.
pub open spec fn spec_probe_sample(
    pix: Map<(u32, u32), (u8, u8, u8)>,
    dims: (u32, u32),
    cx: u32,
    cy: u32,
    dx: int,
    dy: int,
) -> (u8, u8, u8) {
    let x = clamp_i(cx + dx, 0, dims.0 - 1);
    let y = clamp_i(cy + dy, 0, dims.1 - 1);
    pix[(x as u32, y as u32)]
}

fn probe_sample(img: &FrameImage, cx: u32, cy: u32, dx: i32, dy: i32) -> (p: (u8, u8, u8))
    requires
        image_dims(*img).0 >= 1,
        image_dims(*img).1 >= 1,
        -1 <= dx <= 1,
        -1 <= dy <= 1,
    ensures
        p == spec_probe_sample(
            image_pixels(*img),
            image_dims(*img),
            cx,
            cy,
            dx as int,
            dy as int,
        ),
{
    let w = img.width();
    let h = img.height();
    let xi: i64 = cx as i64 + dx as i64;
    let x: u32 = if xi < 0 {
        0
    } else if xi > (w - 1) as i64 {
        w - 1
    } else {
        xi as u32
    };
    let yi: i64 = cy as i64 + dy as i64;
    let y: u32 = if yi < 0 {
        0
    } else if yi > (h - 1) as i64 {
        h - 1
    } else {
        yi as u32
    };
    img.pixel(x, y)
}

/// Whether the clamped sample at offset `(dx, dy)` from the probe center
/// reads as digit glyph foreground (interior fill or outline).
pub open spec fn spec_probe_on(
    pix: Map<(u32, u32), (u8, u8, u8)>,
    dims: (u32, u32),
    cx: u32,
    cy: u32,
    dx: int,
    dy: int,
) -> bool {
    let hsv = spec_rgb_to_hsv(spec_probe_sample(pix, dims, cx, cy, dx, dy));
    spec_is_digit_fill_pixel(hsv) || spec_is_digit_outline_pixel(hsv)
}

fn probe_on(img: &FrameImage, cx: u32, cy: u32, dx: i32, dy: i32) -> (r: bool)
    requires
        image_dims(*img).0 >= 1,
        image_dims(*img).1 >= 1,
        -1 <= dx <= 1,
        -1 <= dy <= 1,
    ensures
        r == spec_probe_on(image_pixels(*img), image_dims(*img), cx, cy, dx as int, dy as int),
{
    let hsv = rgb_to_hsv(probe_sample(img, cx, cy, dx, dy));
    is_digit_fill_pixel(hsv) || is_digit_outline_pixel(hsv)
}

/// Whether the 3x3 neighborhood around `(cx, cy)` majority-votes for a
/// digit glyph: at least five of the nine clamped samples read as glyph
/// foreground. The vote gives anti-aliasing robustness.
#[verifier::opaque]
pub open spec fn spec_is_sa_digit_foreground(
    pix: Map<(u32, u32), (u8, u8, u8)>,
    dims: (u32, u32),
    cx: u32,
    cy: u32,
) -> bool {
    b2i(spec_probe_on(pix, dims, cx, cy, -1, -1)) + b2i(spec_probe_on(pix, dims, cx, cy, 0, -1))
        + b2i(spec_probe_on(pix, dims, cx, cy, 1, -1)) + b2i(
        spec_probe_on(pix, dims, cx, cy, -1, 0),
    ) + b2i(spec_probe_on(pix, dims, cx, cy, 0, 0)) + b2i(spec_probe_on(pix, dims, cx, cy, 1, 0))
        + b2i(spec_probe_on(pix, dims, cx, cy, -1, 1)) + b2i(spec_probe_on(pix, dims, cx, cy, 0, 1))
        + b2i(spec_probe_on(pix, dims, cx, cy, 1, 1)) > 4
}

pub fn is_sa_digit_foreground(img: &FrameImage, cx: u32, cy: u32) -> (r: bool)
    requires
        image_dims(*img).0 >= 1,
        image_dims(*img).1 >= 1,
    ensures
        r == spec_is_sa_digit_foreground(image_pixels(*img), image_dims(*img), cx, cy),
{
    proof {
        reveal(spec_is_sa_digit_foreground);
    }
    let mut count: u32 = 0;
    if probe_on(img, cx, cy, -1, -1) {
        count = count + 1;
    }
    if probe_on(img, cx, cy, 0, -1) {
        count = count + 1;
    }
    if probe_on(img, cx, cy, 1, -1) {
        count = count + 1;
    }
    if probe_on(img, cx, cy, -1, 0) {
        count = count + 1;
    }
    if probe_on(img, cx, cy, 0, 0) {
        count = count + 1;
    }
    if probe_on(img, cx, cy, 1, 0) {
        count = count + 1;
    }
    if probe_on(img, cx, cy, -1, 1) {
        count = count + 1;
    }
    if probe_on(img, cx, cy, 0, 1) {
        count = count + 1;
    }
    if probe_on(img, cx, cy, 1, 1) {
        count = count + 1;
    }
    count > 4
}

/// A probe set lies inside a frame of the given dimensions.
pub open spec fn probes_in_frame(probes: Seq<(u32, u32)>, dims: (u32, u32)) -> bool {
    forall|i: int| 0 <= i < probes.len() ==> probes[i].0 < dims.0 && probes[i].1 < dims.1
}

/// The digit recognized from the four probe positions: the CA overlay at
/// two or more probes forces the maximum stock; otherwise the first probe
/// (in priority order) whose neighborhood votes foreground names the
/// digit; no match means unreadable.
pub open spec fn spec_classify_sa_digit(
    pix: Map<(u32, u32), (u8, u8, u8)>,
    dims: (u32, u32),
    probes: Seq<(u32, u32)>,
) -> Option<u8> {
    let ca = b2i(spec_is_ca_text_pixel(pix[(probes[0].0, probes[0].1)])) + b2i(
        spec_is_ca_text_pixel(pix[(probes[1].0, probes[1].1)]),
    ) + b2i(spec_is_ca_text_pixel(pix[(probes[2].0, probes[2].1)])) + b2i(
        spec_is_ca_text_pixel(pix[(probes[3].0, probes[3].1)]),
    );
    if ca >= 2 {
        Some(3u8)
    } else if spec_is_sa_digit_foreground(pix, dims, probes[0].0, probes[0].1) {
        Some(0u8)
    } else if spec_is_sa_digit_foreground(pix, dims, probes[1].0, probes[1].1) {
        Some(1u8)
    } else if spec_is_sa_digit_foreground(pix, dims, probes[2].0, probes[2].1) {
        Some(2u8)
    } else if spec_is_sa_digit_foreground(pix, dims, probes[3].0, probes[3].1) {
        Some(3u8)
    } else {
        None
    }
}

/// Recognize the SA stock digit (0-3) or the CA overlay from the probe
/// positions. Returns None if the digit is unreadable.
pub fn classify_sa_digit(img: &FrameImage, probes: &[(u32, u32); 4]) -> (r: Option<u8>)
    requires
        image_dims(*img).0 >= 1,
        image_dims(*img).1 >= 1,
        probes_in_frame(probes@, image_dims(*img)),
    ensures
        r == spec_classify_sa_digit(image_pixels(*img), image_dims(*img), probes@),
        match r {
            Some(d) => d <= 3,
            None => true,
        },
{
    let mut ca_count: u32 = 0;
    if is_ca_text_pixel(img.pixel(probes[0].0, probes[0].1)) {
        ca_count = ca_count + 1;
    }
    if is_ca_text_pixel(img.pixel(probes[1].0, probes[1].1)) {
        ca_count = ca_count + 1;
    }
    if is_ca_text_pixel(img.pixel(probes[2].0, probes[2].1)) {
        ca_count = ca_count + 1;
    }
    if is_ca_text_pixel(img.pixel(probes[3].0, probes[3].1)) {
        ca_count = ca_count + 1;
    }
    if ca_count >= 2 {
        return Some(3);
    }

    if is_sa_digit_foreground(img, probes[0].0, probes[0].1) {
        Some(0)
    } else if is_sa_digit_foreground(img, probes[1].0, probes[1].1) {
        Some(1)
    } else if is_sa_digit_foreground(img, probes[2].0, probes[2].1) {
        Some(2)
    } else if is_sa_digit_foreground(img, probes[3].0, probes[3].1) {
        Some(3)
    } else {
        None
    }
}

/// The SA value read from a frame: the recognized stock digit plus, below
/// the maximum stock, the fractional fill of the current bar. A full bar
/// under a digit below the maximum contradicts the digit (the digit should
/// already have incremented), so it reads as unreadable rather than as a
/// value.
pub open spec fn spec_read_sa_value(
    pix: Map<(u32, u32), (u8, u8, u8)>,
    dims: (u32, u32),
    probes: Seq<(u32, u32)>,
    line: Scanline,
) -> Option<GaugeValue> {
    match spec_classify_sa_digit(pix, dims, probes) {
        None => None,
        Some(stock) => {
            if stock >= 3 {
                Some(GaugeValue { whole: 3u32, frac: Ratio { num: 0u32, den: 1u32 } })
            } else {
                match spec_find_bar_boundary(pix, line, SaBarClassifier) {
                    None => None,
                    Some(n) => {
                        if n == line.spec_width() {
                            None
                        } else {
                            Some(
                                GaugeValue {
                                    whole: stock as u32,
                                    frac: Ratio { num: n as u32, den: line.spec_width() as u32 },
                                },
                            )
                        }
                    },
                }
            }
        },
    }
}

/// Combine digit recognition with bar fill to produce an SA reading of at
/// most three stocks. A stock count of three maps to exactly three with no
/// bar scan; below three the value is strictly less than `stock + 1`.
pub fn read_sa_value(img: &FrameImage, probes: &[(u32, u32); 4], sa_scan: &Scanline) -> (r: Option<
    GaugeValue,
>)
    requires
        image_dims(*img).0 >= 1,
        image_dims(*img).1 >= 1,
        probes_in_frame(probes@, image_dims(*img)),
        sa_scan.in_frame(image_dims(*img)),
        sa_scan.spec_width() > 0,
    ensures
        r == spec_read_sa_value(image_pixels(*img), image_dims(*img), probes@, *sa_scan),
        match r {
            Some(v) => v.wf(3),
            None => true,
        },
{
    let stock = match classify_sa_digit(img, probes) {
        None => {
            return None;
        },
        Some(s) => s,
    };

    if stock >= 3 {
        return Some(GaugeValue { whole: 3, frac: Ratio::zero() });
    }

    let fill = match find_bar_boundary(img, sa_scan, &SaBarClassifier) {
        None => {
            return None;
        },
        Some(f) => f,
    };

    if fill.num == fill.den {
        return None;
    }
    Some(GaugeValue { whole: stock as u32, frac: fill })
}

/// An absolute pixel position (P1 side, reference resolution) with its
/// foreground bitmask: bit `n` is set when digit `n` shows glyph
/// foreground at this position on both sides.
#[derive(Debug, Clone, Copy, PartialEq, Eq, Structural)]
pub struct ProbeScanEntry {
    pub x: u32,
    pub y: u32,
    /// Bitmask: bit 0 = digit "0", bit 1 = digit "1", and so on.
    pub fg_mask: u8,
}

/// Horizontal offset from a P1 digit-box position to its P2 mirror.
pub const P2_PROBE_OFFSET_X: u32 = 1640;

/// The foreground bitmask accumulated over captures `[i, len)` for the
/// position `(x, y)`: each capture whose digit shows foreground on both
/// sides sets that digit's bit; a capture on which the two sides disagree
/// makes the position ambiguous (`None`).
pub open spec fn spec_probe_mask(
    imgs: Seq<(crate::frame::FrameImage, u8)>,
    i: int,
    x: u32,
    y: u32,
    acc: u8,
) -> Option<u8>
    decreases imgs.len() - i,
{
    if i < 0 || i >= imgs.len() {
        Some(acc)
    } else {
        let img = imgs[i].0;
        let digit = imgs[i].1;
        let p1_fg = spec_is_sa_digit_foreground(image_pixels(img), image_dims(img), x, y);
        let p2_fg = spec_is_sa_digit_foreground(
            image_pixels(img),
            image_dims(img),
            (x + P2_PROBE_OFFSET_X) as u32,
            y,
        );
        if p1_fg != p2_fg {
            None
        } else if p1_fg {
            spec_probe_mask(imgs, i + 1, x, y, acc | (1u8 << digit))
        } else {
            spec_probe_mask(imgs, i + 1, x, y, acc)
        }
    }
}

/// The digit box holds 40 x 60 positions, walked row-major; `p / 40` is
/// the row and `p % 40` the column.
pub open spec fn spec_probe_pos(p: int) -> (u32, u32) {
    ((120 + p % 40) as u32, (960 + p / 40) as u32)
}

/// The unambiguous probe positions of the digit box from flat index `p`
/// on, each with its accumulated foreground mask.
pub open spec fn spec_probe_entries(imgs: Seq<(crate::frame::FrameImage, u8)>, p: int) -> Seq<
    ProbeScanEntry,
>
    decreases 2400 - p,
{
    if p < 0 || p >= 2400 {
        Seq::empty()
    } else {
        let pos = spec_probe_pos(p);
        let rest = spec_probe_entries(imgs, p + 1);
        match spec_probe_mask(imgs, 0, pos.0, pos.1, 0) {
            Some(mask) => seq![ProbeScanEntry { x: pos.0, y: pos.1, fg_mask: mask }] + rest,
            None => rest,
        }
    }
}

/// Every capture shows a digit no larger than three on an image at least
/// as large as the reference resolution.
pub open spec fn captures_wf(imgs: Seq<(crate::frame::FrameImage, u8)>) -> bool {
    forall|j: int|
        0 <= j < imgs.len() ==> (#[trigger] imgs[j]).1 <= 3 && image_dims(imgs[j].0).0 >= 1920
            && image_dims(imgs[j].0).1 >= 1080
}

fn probe_mask(imgs: &Vec<(crate::frame::FrameImage, u8)>, x: u32, y: u32) -> (r: Option<u8>)
    requires
        captures_wf(imgs@),
        x + P2_PROBE_OFFSET_X <= u32::MAX,
    ensures
        r == spec_probe_mask(imgs@, 0, x, y, 0u8),
{
    let mut acc: u8 = 0;
    let mut j: usize = 0;
    while j < imgs.len()
        invariant
            captures_wf(imgs@),
            x + P2_PROBE_OFFSET_X <= u32::MAX,
            j <= imgs@.len(),
            spec_probe_mask(imgs@, 0, x, y, 0u8) == spec_probe_mask(imgs@, j as int, x, y, acc),
        decreases imgs@.len() - j,
    {
        let pair = &imgs[j];
        let p1_fg = is_sa_digit_foreground(&pair.0, x, y);
        let p2_fg = is_sa_digit_foreground(&pair.0, x + P2_PROBE_OFFSET_X, y);
        if p1_fg != p2_fg {
            return None;
        }
        if p1_fg {
            acc = acc | (1u8 << pair.1);
        }
        j = j + 1;
    }
    Some(acc)
}

/// Scan every position of the SA digit bounding box over a set of
/// captures, one per displayed digit, and keep each position on which the
/// two players' sides agree for every capture, with the set of digits
/// that light it up. This derives the fixed probe coordinates offline.
pub fn scan_sa_digit_probes(digit_images: &Vec<(crate::frame::FrameImage, u8)>) -> (entries: Vec<
    ProbeScanEntry,
>)
    requires
        digit_images@.len() >= 1,
        captures_wf(digit_images@),
    ensures
        entries@ == spec_probe_entries(digit_images@, 0),
{
    let mut entries: Vec<ProbeScanEntry> = Vec::new();
    let mut p: usize = 0;
    while p < 2400
        invariant
            captures_wf(digit_images@),
            p <= 2400,
            spec_probe_entries(digit_images@, 0) == entries@ + spec_probe_entries(
                digit_images@,
                p as int,
            ),
        decreases 2400 - p,
    {
        let x = (120 + (p % 40)) as u32;
        let y = (960 + (p / 40)) as u32;
        proof {
            assert(spec_probe_pos(p as int) == (x, y));
        }
        let ghost prev = entries@;
        match probe_mask(digit_images, x, y) {
            Some(mask) => {
                entries.push(ProbeScanEntry { x, y, fg_mask: mask });
                proof {
                    assert(prev + (seq![
                        ProbeScanEntry { x, y, fg_mask: mask },
                    ] + spec_probe_entries(digit_images@, p + 1)) =~= entries@
                        + spec_probe_entries(digit_images@, p + 1));
                }
            },
            None => {},
        }
        p = p + 1;
    }
    proof {
        assert(entries@ + Seq::<ProbeScanEntry>::empty() =~= entries@);
    }
    entries
}

/// The number of set bits in a probe mask.
pub open spec fn spec_popcount8(m: u8) -> int {
    (m & 1) + ((m >> 1) & 1) + ((m >> 2) & 1) + ((m >> 3) & 1) + ((m >> 4) & 1) + ((m >> 5) & 1)
        + ((m >> 6) & 1) + ((m >> 7) & 1)
}

pub open spec fn spec_abs_diff(a: int, b: int) -> int {
    if a >= b {
        a - b
    } else {
        b - a
    }
}

/// The selection key of a probe candidate: fewer lit digits first, then
/// smaller distance to the box center.
pub open spec fn probe_key_le(e1: ProbeScanEntry, e2: ProbeScanEntry, cx: int, cy: int) -> bool {
    let p1 = spec_popcount8(e1.fg_mask);
    let p2 = spec_popcount8(e2.fg_mask);
    let d1 = spec_abs_diff(e1.x as int, cx) + spec_abs_diff(e1.y as int, cy);
    let d2 = spec_abs_diff(e2.x as int, cx) + spec_abs_diff(e2.y as int, cy);
    p1 < p2 || (p1 == p2 && d1 <= d2)
}

/// The best probe among entries `[i, len)` whose mask agrees with the
/// cascade requirement, carrying the best candidate so far; among equally
/// good candidates the one seen last wins.
pub open spec fn spec_select_probe(
    entries: Seq<ProbeScanEntry>,
    i: int,
    required: u8,
    check_mask: u8,
    cx: int,
    cy: int,
    cur: Option<ProbeScanEntry>,
) -> Option<ProbeScanEntry>
    decreases entries.len() - i,
{
    if i < 0 || i >= entries.len() {
        cur
    } else {
        let e = entries[i];
        let better = e.fg_mask & check_mask == required && (match cur {
            None => true,
            Some(c) => probe_key_le(e, c, cx, cy),
        });
        if better {
            spec_select_probe(entries, i + 1, required, check_mask, cx, cy, Some(e))
        } else {
            spec_select_probe(entries, i + 1, required, check_mask, cx, cy, cur)
        }
    }
}

/// The coordinate bounds of the entries from index `i` on:
/// (min x, max x, min y, max y).
pub open spec fn spec_probe_bounds(
    entries: Seq<ProbeScanEntry>,
    i: int,
    acc: (u32, u32, u32, u32),
) -> (u32, u32, u32, u32)
    decreases entries.len() - i,
{
    if i < 0 || i >= entries.len() {
        acc
    } else {
        let e = entries[i];
        let acc1 = (
            if e.x < acc.0 {
                e.x
            } else {
                acc.0
            },
            if e.x > acc.1 {
                e.x
            } else {
                acc.1
            },
            if e.y < acc.2 {
                e.y
            } else {
                acc.2
            },
            if e.y > acc.3 {
                e.y
            } else {
                acc.3
            },
        );
        spec_probe_bounds(entries, i + 1, acc1)
    }
}

/// The center the probe selection measures distance from: the midpoint of
/// the scanned positions.
pub open spec fn spec_probe_center(entries: Seq<ProbeScanEntry>) -> (int, int) {
    let b = spec_probe_bounds(
        entries,
        1,
        (entries[0].x, entries[0].x, entries[0].y, entries[0].y),
    );
    ((b.0 + b.1) / 2, (b.2 + b.3) / 2)
}

/// The cascade requirement of each digit: the digit's own bit must be
/// lit, and every digit checked after it must be dark.
pub open spec fn spec_cascade_mask(d: int) -> (u8, u8) {
    if d == 0 {
        (0x01u8, 0x0fu8)
    } else if d == 1 {
        (0x02u8, 0x0eu8)
    } else if d == 2 {
        (0x04u8, 0x0cu8)
    } else {
        (0x08u8, 0x08u8)
    }
}

fn select_probe(
    entries: &Vec<ProbeScanEntry>,
    required: u8,
    check_mask: u8,
    cx: u32,
    cy: u32,
) -> (r: Option<ProbeScanEntry>)
    ensures
        r == spec_select_probe(entries@, 0, required, check_mask, cx as int, cy as int, None),
{
    let mut cur: Option<ProbeScanEntry> = None;
    let mut i: usize = 0;
    while i < entries.len()
        invariant
            i <= entries@.len(),
            spec_select_probe(entries@, 0, required, check_mask, cx as int, cy as int, None)
                == spec_select_probe(
                entries@,
                i as int,
                required,
                check_mask,
                cx as int,
                cy as int,
                cur,
            ),
        decreases entries@.len() - i,
    {
        let e = entries[i];
        let matches_mask = e.fg_mask & check_mask == required;
        let better = matches_mask && match cur {
            None => true,
            Some(c) => {
                let p1 = popcount8(e.fg_mask);
                let p2 = popcount8(c.fg_mask);
                let d1 = abs_diff_u32(e.x, cx) + abs_diff_u32(e.y, cy);
                let d2 = abs_diff_u32(c.x, cx) + abs_diff_u32(c.y, cy);
                p1 < p2 || (p1 == p2 && d1 <= d2)
            },
        };
        if better {
            cur = Some(e);
        }
        i = i + 1;
    }
    cur
}

fn popcount8(m: u8) -> (r: u32)
    ensures
        r == spec_popcount8(m),
{
    ((m & 1) as u32) + (((m >> 1) & 1) as u32) + (((m >> 2) & 1) as u32) + (((m >> 3)
        & 1) as u32) + (((m >> 4) & 1) as u32) + (((m >> 5) & 1) as u32) + (((m >> 6)
        & 1) as u32) + (((m >> 7) & 1) as u32)
}

fn abs_diff_u32(a: u32, b: u32) -> (r: u64)
    ensures
        r == spec_abs_diff(a as int, b as int),
{
    if a >= b {
        (a - b) as u64
    } else {
        (b - a) as u64
    }
}

/// Pick, for each digit of the cascade, the best probe position: its mask
/// must light the digit itself and none of the digits checked after it,
/// preferring positions lit by fewer digits and nearer the box center.
pub fn select_digit_probes(entries: &Vec<ProbeScanEntry>) -> (r: Vec<Option<ProbeScanEntry>>)
    requires
        entries@.len() >= 1,
    ensures
        r@.len() == 4,
        forall|d: int|
            0 <= d < 4 ==> #[trigger] r@[d] == spec_select_probe(
                entries@,
                0,
                spec_cascade_mask(d).0,
                spec_cascade_mask(d).1,
                spec_probe_center(entries@).0,
                spec_probe_center(entries@).1,
                None,
            ),
{
    let first = entries[0];
    let mut min_x = first.x;
    let mut max_x = first.x;
    let mut min_y = first.y;
    let mut max_y = first.y;
    let mut i: usize = 1;
    while i < entries.len()
        invariant
            entries@.len() >= 1,
            1 <= i <= entries@.len(),
            spec_probe_bounds(
                entries@,
                1,
                (entries@[0].x, entries@[0].x, entries@[0].y, entries@[0].y),
            ) == spec_probe_bounds(entries@, i as int, (min_x, max_x, min_y, max_y)),
        decreases entries@.len() - i,
    {
        let e = entries[i];
        if e.x < min_x {
            min_x = e.x;
        }
        if e.x > max_x {
            max_x = e.x;
        }
        if e.y < min_y {
            min_y = e.y;
        }
        if e.y > max_y {
            max_y = e.y;
        }
        i = i + 1;
    }
    let cx = (((min_x as u64) + (max_x as u64)) / 2) as u32;
    let cy = (((min_y as u64) + (max_y as u64)) / 2) as u32;

    let mut r: Vec<Option<ProbeScanEntry>> = Vec::new();
    r.push(select_probe(entries, 0x01, 0x0f, cx, cy));
    r.push(select_probe(entries, 0x02, 0x0e, cx, cy));
    r.push(select_probe(entries, 0x04, 0x0c, cx, cy));
    r.push(select_probe(entries, 0x08, 0x08, cx, cy));
    r
}

} // verus!
