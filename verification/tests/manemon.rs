use recmari::analysis::{GaugeValue, Hud, OdValue};
use recmari::common::Scanline;
use recmari::frame::{Frame, FrameImage};
use recmari::manemon::hp::{analyze_hp, find_border, HpBarPixel};
use recmari::manemon::od::OdGaugePixel;
use recmari::manemon::od::{
    classify_od_segment, get_p1_od_segments, get_p2_od_segments, is_segment_empty_fast,
    is_segment_full_fast, od_value_from_states, read_od_value, OdSegmentState,
};
use recmari::manemon::od::OdSegmentState::{Empty, Full, Partial, Unknown};
use recmari::manemon::sa::{
    classify_sa_digit, is_sa_digit_foreground, read_sa_value, scan_sa_digit_probes, SaGaugePixel,
};
use recmari::manemon::{count_matching_pixels, ConfigError, ManemonHud};
use recmari::ratio::Ratio;

// Colors whose integer HSV values fall squarely inside the classifier
// ranges.
const YELLOW_HP: (u8, u8, u8) = (255, 255, 0);
const ORANGE_HP: (u8, u8, u8) = (255, 170, 0);
const ORANGE_BORDER: (u8, u8, u8) = (255, 200, 64);
const WHITE: (u8, u8, u8) = (255, 255, 255);
const BLUE_BG: (u8, u8, u8) = (0, 94, 255);
const GREEN_UNKNOWN: (u8, u8, u8) = (0, 255, 0);
const CYAN_FILL: (u8, u8, u8) = (0, 230, 255);
const CA_GOLD: (u8, u8, u8) = (255, 128, 0);
const DIGIT_BLUE: (u8, u8, u8) = (0, 64, 255);
const CA_FRAME_BLUE: (u8, u8, u8) = (0, 200, 255);
const OD_GREEN_BG: (u8, u8, u8) = (128, 255, 0);
const PARTIAL_BORDER_GREEN: (u8, u8, u8) = (64, 255, 0);
const PARTIAL_BG_GREEN: (u8, u8, u8) = (0, 100, 30);
const DARK_GRAY: (u8, u8, u8) = (100, 100, 100);
const BLACK: (u8, u8, u8) = (0, 0, 0);

fn build_image(
    w: u32,
    h: u32,
    base: (u8, u8, u8),
    paints: &[(u32, u32, (u8, u8, u8))],
) -> FrameImage {
    let mut data = vec![0u8; (w * h * 3) as usize];
    for y in 0..h {
        for x in 0..w {
            let idx = (3 * (y * w + x)) as usize;
            data[idx] = base.0;
            data[idx + 1] = base.1;
            data[idx + 2] = base.2;
        }
    }
    for &(x, y, c) in paints {
        let idx = (3 * (y * w + x)) as usize;
        data[idx] = c.0;
        data[idx + 1] = c.1;
        data[idx + 2] = c.2;
    }
    FrameImage::from_raw(w, h, data).expect("raster fits its dimensions")
}

fn frame_of(image: FrameImage) -> Frame {
    Frame { image, frame_number: 0, timestamp_micros: 0 }
}

// ---- HP border scan ----

#[test]
fn test_find_border() {
    // Yellow fill, one white border pixel, then background: the border is
    // confirmed one past the last border pixel.
    let mut paints = Vec::new();
    for x in 3..=9 {
        paints.push((x, 4, YELLOW_HP));
    }
    paints.push((10, 4, WHITE));
    paints.push((11, 4, BLUE_BG));
    let img = build_image(40, 8, BLACK, &paints);
    let line = Scanline { x_start: 0, x_end: 30, y: 4 };
    assert_eq!(find_border(&img, &line), Some(11));
    assert_eq!(analyze_hp(&img, &line), Some(Ratio::new(11, 30)));
}

#[test]
fn test_find_border_orange() {
    // Low-health orange fill pairs with the orange-tinted border.
    let mut paints = Vec::new();
    for x in 3..=9 {
        paints.push((x, 4, ORANGE_HP));
    }
    paints.push((10, 4, ORANGE_BORDER));
    paints.push((11, 4, BLUE_BG));
    let img = build_image(40, 8, BLACK, &paints);
    let line = Scanline { x_start: 0, x_end: 30, y: 4 };
    assert_eq!(find_border(&img, &line), Some(11));
}

#[test]
fn test_find_border_full_bar() {
    // A completely filled bar: the border sits at the very end of the
    // scanline and is confirmed by the pixel just outside the bar.
    let mut paints = Vec::new();
    for x in 3..=28 {
        paints.push((x, 4, YELLOW_HP));
    }
    paints.push((29, 4, WHITE));
    paints.push((30, 4, BLUE_BG));
    let img = build_image(40, 8, BLACK, &paints);
    let line = Scanline { x_start: 0, x_end: 30, y: 4 };
    assert_eq!(find_border(&img, &line), Some(30));
    assert_eq!(analyze_hp(&img, &line), Some(Ratio::new(30, 30)));
}

#[test]
fn test_find_border_ko() {
    // A bar opening straight into background, cross-checked vertically:
    // the character is defeated and the bar reads empty.
    let img = build_image(40, 8, BLUE_BG, &[]);
    let line = Scanline { x_start: 0, x_end: 30, y: 4 };
    assert_eq!(find_border(&img, &line), Some(0));
    assert_eq!(analyze_hp(&img, &line), Some(Ratio::new(0, 30)));
}

#[test]
fn test_find_border_hidden() {
    // A fully occluded bar gives no confident border.
    let img = build_image(40, 8, GREEN_UNKNOWN, &[]);
    let line = Scanline { x_start: 0, x_end: 30, y: 4 };
    assert_eq!(find_border(&img, &line), None);
    assert_eq!(analyze_hp(&img, &line), None);
}

#[test]
fn test_find_border_rejects_wide_border_run() {
    // A border-colored run longer than four pixels is not a border.
    let mut paints = Vec::new();
    for x in 3..=9 {
        paints.push((x, 4, YELLOW_HP));
    }
    for x in 10..=15 {
        paints.push((x, 4, WHITE));
    }
    paints.push((16, 4, BLUE_BG));
    let img = build_image(40, 8, BLACK, &paints);
    let line = Scanline { x_start: 0, x_end: 30, y: 4 };
    assert_eq!(find_border(&img, &line), None);
}

// ---- SA digit and value ----

fn digit_probe_paints(cx: u32, cy: u32, c: (u8, u8, u8)) -> Vec<(u32, u32, (u8, u8, u8))> {
    let mut v = Vec::new();
    for dy in 0..3 {
        for dx in 0..3 {
            v.push((cx + dx - 1, cy + dy - 1, c));
        }
    }
    v
}

const PROBES: [(u32, u32); 4] = [(10, 10), (20, 10), (30, 10), (10, 20)];

#[test]
fn classify_sa_digit_cases() {
    // Digit 1: only the second probe's neighborhood votes foreground.
    let img = build_image(40, 40, BLACK, &digit_probe_paints(20, 10, DIGIT_BLUE));
    assert_eq!(classify_sa_digit(&img, &PROBES), Some(1));

    // No probe matches: unreadable.
    let img = build_image(40, 40, BLACK, &[]);
    assert_eq!(classify_sa_digit(&img, &PROBES), None);

    // The CA overlay at two probes forces the maximum stock, regardless
    // of the digit probes.
    let img = build_image(40, 40, BLACK, &[(10, 10, CA_GOLD), (20, 10, CA_GOLD)]);
    assert_eq!(classify_sa_digit(&img, &PROBES), Some(3));
}

#[test]
fn sa_digit_vote_clamps_at_image_edges() {
    // At a corner, the 3x3 neighborhood clamps to the image bounds; a
    // uniformly glyph-colored image still wins the vote there.
    let img = build_image(3, 3, DIGIT_BLUE, &[]);
    assert!(is_sa_digit_foreground(&img, 0, 0));
    let img = build_image(3, 3, BLACK, &[]);
    assert!(!is_sa_digit_foreground(&img, 0, 0));
}

#[test]
fn read_sa_value_cases() {
    // Digit 1 plus a bar filled to 10 of 20 pixels.
    let mut paints = digit_probe_paints(20, 10, DIGIT_BLUE);
    for x in 0..10 {
        paints.push((x, 30, CYAN_FILL));
    }
    for x in 10..=20 {
        paints.push((x, 30, BLUE_BG));
    }
    let img = build_image(40, 40, BLACK, &paints);
    let line = Scanline { x_start: 0, x_end: 20, y: 30 };
    assert_eq!(
        read_sa_value(&img, &PROBES, &line),
        Some(GaugeValue { whole: 1, frac: Ratio::new(10, 20) })
    );
}

#[test]
fn sa_stock_three_maps_to_exactly_three_without_bar_scan() {
    // Probe 3 on; the bar region is left unreadable, which must not
    // matter: the value is exactly three stocks.
    let paints = digit_probe_paints(10, 20, DIGIT_BLUE);
    let img = build_image(40, 40, BLACK, &paints);
    let line = Scanline { x_start: 0, x_end: 20, y: 30 };
    assert_eq!(
        read_sa_value(&img, &PROBES, &line),
        Some(GaugeValue { whole: 3, frac: Ratio::new(0, 1) })
    );
}

#[test]
fn sa_full_bar_under_low_digit_is_unreadable() {
    // Digit 0 with a bar fill of exactly 1.0 contradicts the digit: the
    // reading is rejected rather than reported as stock + 1.
    let mut paints = digit_probe_paints(10, 10, DIGIT_BLUE);
    for x in 0..=20 {
        paints.push((x, 30, CYAN_FILL));
    }
    let img = build_image(40, 40, BLACK, &paints);
    let line = Scanline { x_start: 0, x_end: 20, y: 30 };
    assert_eq!(read_sa_value(&img, &PROBES, &line), None);
}

#[test]
fn sa_probe_scan_keeps_agreeing_positions() {
    // A uniform capture: both sides agree everywhere, so all 2400 box
    // positions are kept with an empty mask.
    let img = build_image(1920, 1080, BLACK, &[]);
    let entries = scan_sa_digit_probes(&vec![(img, 0u8)]);
    assert_eq!(entries.len(), 2400);
    assert_eq!(entries[0].x, 120);
    assert_eq!(entries[0].y, 960);
    assert_eq!(entries[0].fg_mask, 0);

    // Foreground on the P1 side only makes that position ambiguous and
    // drops it.
    let img = build_image(1920, 1080, BLACK, &digit_probe_paints(129, 989, DIGIT_BLUE));
    let entries = scan_sa_digit_probes(&vec![(img, 0u8)]);
    assert!(entries.len() < 2400);
    assert!(entries.iter().all(|e| !(e.x == 129 && e.y == 989)));
}

// ---- OD segments ----

fn seg_line() -> Scanline {
    Scanline { x_start: 0, x_end: 52, y: 10 }
}

#[test]
fn od_segment_full_fast() {
    let paints = vec![
        (0, 10, WHITE),
        (52, 10, WHITE),
        (26, 2, WHITE),
        (26, 17, WHITE),
        (26, 10, OD_GREEN_BG),
    ];
    let img = build_image(60, 20, BLACK, &paints);
    assert!(is_segment_full_fast(&img, &seg_line()));
    assert_eq!(classify_od_segment(&img, &seg_line()), OdSegmentState::Full);
}

#[test]
fn od_segment_empty_fast() {
    let paints = vec![
        (0, 10, BLUE_BG),
        (52, 10, BLUE_BG),
        (26, 2, BLUE_BG),
        (26, 17, BLUE_BG),
        (26, 10, BLUE_BG),
    ];
    let img = build_image(60, 20, BLACK, &paints);
    assert!(is_segment_empty_fast(&img, &seg_line()));
    assert_eq!(classify_od_segment(&img, &seg_line()), OdSegmentState::Empty);
}

#[test]
fn od_segment_partial() {
    let paints = vec![
        (10, 9, PARTIAL_BORDER_GREEN),
        (10, 10, PARTIAL_BORDER_GREEN),
        (10, 11, PARTIAL_BORDER_GREEN),
        (11, 10, PARTIAL_BG_GREEN),
    ];
    let img = build_image(60, 20, BLACK, &paints);
    assert_eq!(
        classify_od_segment(&img, &seg_line()),
        OdSegmentState::Partial(Ratio::new(10, 52))
    );
}

#[test]
fn od_segment_defaults_to_unknown() {
    // No heuristic matches: the segment must default to Unknown.
    let img = build_image(60, 20, BLACK, &[]);
    assert_eq!(classify_od_segment(&img, &seg_line()), OdSegmentState::Unknown);
}

#[test]
fn od_walk_cases() {
    let zero = Ratio::new(0, 1);

    // A run of Full segments followed immediately by Empty yields the
    // index of the first Empty segment.
    let states = vec![Full, Full, Empty, Empty, Empty, Empty];
    assert_eq!(
        od_value_from_states(&states),
        Some(OdValue::Normal(GaugeValue { whole: 2, frac: zero }))
    );

    // A Partial segment yields its index plus its fill.
    let states = vec![Full, Partial(Ratio::new(26, 52)), Empty, Empty, Empty, Empty];
    assert_eq!(
        od_value_from_states(&states),
        Some(OdValue::Normal(GaugeValue { whole: 1, frac: Ratio::new(26, 52) }))
    );

    // All Full: the gauge is at its maximum.
    let states = vec![Full; 6];
    assert_eq!(
        od_value_from_states(&states),
        Some(OdValue::Normal(GaugeValue { whole: 6, frac: zero }))
    );

    // Trailing Unknowns after a run of Full reach no terminal state.
    let states = vec![Full, Full, Unknown, Unknown, Unknown, Unknown];
    assert_eq!(od_value_from_states(&states), None);

    // Empty at the very start: the gauge is empty.
    let states = vec![Empty; 6];
    assert_eq!(
        od_value_from_states(&states),
        Some(OdValue::Normal(GaugeValue { whole: 0, frac: zero }))
    );
}

#[test]
fn read_od_value_empty_gauge() {
    let img = build_image(1920, 1080, BLUE_BG, &[]);
    let r = read_od_value(&img, true);
    assert_eq!(
        r,
        Some(OdValue::Normal(GaugeValue { whole: 0, frac: Ratio::new(0, 1) }))
    );
}

#[test]
fn read_od_value_full_gauge() {
    let mut paints = Vec::new();
    for seg in get_p2_od_segments() {
        let s = seg.x_start;
        let e = seg.x_end;
        let cx = (s + e) / 2;
        paints.push((s, 122, WHITE));
        paints.push((e, 122, WHITE));
        paints.push((cx, 114, WHITE));
        paints.push((cx, 129, WHITE));
        paints.push((cx, 122, OD_GREEN_BG));
    }
    let img = build_image(1920, 1080, BLUE_BG, &paints);
    let r = read_od_value(&img, false);
    assert_eq!(
        r,
        Some(OdValue::Normal(GaugeValue { whole: 6, frac: Ratio::new(0, 1) }))
    );
}

#[test]
fn read_od_value_burnout_just_entered() {
    // Uniformly dark, unsaturated gauge: just entered burnout, never
    // unreadable in this sub-mode.
    let img = build_image(1920, 1080, DARK_GRAY, &[]);
    let r = read_od_value(&img, true);
    assert_eq!(r, Some(OdValue::Burnout(Ratio::new(0, 327))));
}

#[test]
fn read_od_value_burnout_recovery() {
    // The first ten samples of the P1 gauge (scanning right to left from
    // x=888) are recovered near-white; the rest is dark.
    let mut paints = Vec::new();
    for i in 0..10 {
        paints.push((888 - i, 122, WHITE));
    }
    let img = build_image(1920, 1080, DARK_GRAY, &paints);
    let r = read_od_value(&img, true);
    assert_eq!(r, Some(OdValue::Burnout(Ratio::new(10, 327))));
}

#[test]
fn od_segment_geometry() {
    let p1 = get_p1_od_segments();
    assert_eq!(p1.len(), 6);
    assert_eq!(p1[0], Scanline { x_start: 888, x_end: 836, y: 122 });
    assert_eq!(p1[5], Scanline { x_start: 613, x_end: 561, y: 122 });
    let p2 = get_p2_od_segments();
    assert_eq!(p2.len(), 6);
    assert_eq!(p2[0], Scanline { x_start: 1032, x_end: 1084, y: 122 });
}

#[test]
fn count_matching_pixels_counts_all_sixteen_samples() {
    let line = Scanline { x_start: 0, x_end: 10, y: 1 };
    let all_fill = build_image(12, 3, CYAN_FILL, &[]);
    assert_eq!(count_matching_pixels(&all_fill, &line, &SaGaugePixel), 16);
    let none = build_image(12, 3, BLACK, &[]);
    assert_eq!(count_matching_pixels(&none, &line, &SaGaugePixel), 0);

    // The HP and OD pixel families recognize their own colors only.
    let all_yellow = build_image(12, 3, YELLOW_HP, &[]);
    assert_eq!(count_matching_pixels(&all_yellow, &line, &HpBarPixel), 16);
    assert_eq!(count_matching_pixels(&all_yellow, &line, &OdGaugePixel), 0);
    let all_blue = build_image(12, 3, BLUE_BG, &[]);
    assert_eq!(count_matching_pixels(&all_blue, &line, &OdGaugePixel), 16);
}

// ---- HUD ----

#[test]
fn hud_requires_supported_resolution() {
    assert!(ManemonHud::new(1920, 1080).is_ok());
    match ManemonHud::new(1280, 720) {
        Err(e) => assert_eq!(e, ConfigError::UnsupportedResolution),
        Ok(_) => panic!("a non-reference resolution must be rejected"),
    }
}

#[test]
fn test_detect_hud_sa() {
    let hud = ManemonHud::new(1920, 1080).unwrap();
    let frame = frame_of(build_image(1920, 1080, DIGIT_BLUE, &[]));
    assert!(hud.detect_hud(&frame));
}

#[test]
fn test_detect_hud_ca() {
    let hud = ManemonHud::new(1920, 1080).unwrap();
    let frame = frame_of(build_image(1920, 1080, CA_FRAME_BLUE, &[]));
    assert!(hud.detect_hud(&frame));
}

#[test]
fn test_detect_hud_no_hud() {
    let hud = ManemonHud::new(1920, 1080).unwrap();
    let frame = frame_of(build_image(1920, 1080, BLACK, &[]));
    assert!(!hud.detect_hud(&frame));
}

#[test]
fn hud_analyzes_depleted_health_bars() {
    let hud = ManemonHud::new(1920, 1080).unwrap();
    let frame = frame_of(build_image(1920, 1080, BLUE_BG, &[]));
    let hp = hud.analyze_hp(&frame);
    assert_eq!(hp.p1, Some(Ratio::new(0, 699)));
    assert_eq!(hp.p2, Some(Ratio::new(0, 699)));
}

#[test]
fn hud_debug_regions_cover_all_gauges() {
    let hud = ManemonHud::new(1920, 1080).unwrap();
    let regions = hud.debug_regions();
    assert_eq!(regions.len(), 6);
    // The P1 health scanline's overlay band.
    assert_eq!(regions[0].rect.x, 187);
    assert_eq!(regions[0].rect.y, 79);
    assert_eq!(regions[0].rect.w, 700);
    assert_eq!(regions[0].rect.h, 3);
    assert_eq!(regions[0].color, (0, 255, 0));
}
