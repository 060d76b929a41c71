use recmari::common::{find_bar_boundary, rgb_to_hsv, BarSegment, HpSegment, Hsv, Scanline};
use recmari::frame::FrameImage;
use recmari::manemon::hp::HpBarClassifier;
use recmari::manemon::sa::SaBarClassifier;
use recmari::ratio::Ratio;

// Colors whose integer HSV values fall squarely inside the classifier
// ranges used by the SA bar classifier.
const CYAN_FILL: (u8, u8, u8) = (0, 230, 255);
const BLUE_EMPTY: (u8, u8, u8) = (0, 94, 255);
const GREEN_UNKNOWN: (u8, u8, u8) = (0, 255, 0);

fn image_of_row(pixels: &[(u8, u8, u8)]) -> FrameImage {
    let w = pixels.len() as u32;
    let mut data = Vec::new();
    for _ in 0..3 {
        for &(r, g, b) in pixels {
            data.push(r);
            data.push(g);
            data.push(b);
        }
    }
    FrameImage::from_raw(w, 3, data).expect("raster fits its dimensions")
}

fn row_line(width: u32) -> Scanline {
    Scanline { x_start: 0, x_end: width, y: 1 }
}

#[test]
fn rgb_to_hsv_primaries() {
    assert_eq!(rgb_to_hsv((255, 0, 0)), Hsv { h: 0, s: 1000, v: 1000 });
    assert_eq!(rgb_to_hsv((0, 255, 0)), Hsv { h: 120000, s: 1000, v: 1000 });
    assert_eq!(rgb_to_hsv((0, 0, 255)), Hsv { h: 240000, s: 1000, v: 1000 });
    assert_eq!(rgb_to_hsv((255, 255, 0)), Hsv { h: 60000, s: 1000, v: 1000 });
    assert_eq!(rgb_to_hsv((0, 0, 0)), Hsv { h: 0, s: 0, v: 0 });
    assert_eq!(rgb_to_hsv((128, 128, 128)), Hsv { h: 0, s: 0, v: 501 });
    assert_eq!(rgb_to_hsv((255, 255, 255)), Hsv { h: 0, s: 0, v: 1000 });
}

#[test]
fn hp_segment_collapses_to_bar_segment() {
    assert_eq!(BarSegment::from(HpSegment::Healthy), BarSegment::Foreground);
    assert_eq!(BarSegment::from(HpSegment::Border), BarSegment::Foreground);
    assert_eq!(BarSegment::from(HpSegment::Damage), BarSegment::Background);
    assert_eq!(BarSegment::from(HpSegment::ProvisionalDamage), BarSegment::Background);
    assert_eq!(BarSegment::from(HpSegment::Background), BarSegment::Background);
    assert_eq!(BarSegment::from(HpSegment::Unknown), BarSegment::Unknown);
}

#[test]
fn scanline_geometry() {
    let ltr = Scanline { x_start: 10, x_end: 30, y: 5 };
    assert_eq!(ltr.width(), 20);
    assert_eq!(ltr.dx(), 1);
    assert_eq!(ltr.x_at(4), 14);

    let rtl = Scanline { x_start: 30, x_end: 10, y: 5 };
    assert_eq!(rtl.width(), 20);
    assert_eq!(rtl.dx(), -1);
    assert_eq!(rtl.x_at(4), 26);

    let scaled = ltr.scale_to(960, 540, 1920, 1080);
    assert_eq!(scaled, Scanline { x_start: 5, x_end: 15, y: 2 });
}

#[test]
fn boundary_all_foreground_is_full() {
    let pixels = vec![CYAN_FILL; 11];
    let img = image_of_row(&pixels);
    let r = find_bar_boundary(&img, &row_line(10), &SaBarClassifier);
    assert_eq!(r, Some(Ratio { num: 10, den: 10 }));
}

#[test]
fn boundary_first_background_is_zero() {
    let mut pixels = vec![CYAN_FILL; 11];
    pixels[0] = BLUE_EMPTY;
    let img = image_of_row(&pixels);
    let r = find_bar_boundary(&img, &row_line(10), &SaBarClassifier);
    assert_eq!(r, Some(Ratio { num: 0, den: 10 }));
}

#[test]
fn boundary_simple_transition() {
    let mut pixels = vec![CYAN_FILL; 11];
    for p in pixels.iter_mut().skip(6) {
        *p = BLUE_EMPTY;
    }
    let img = image_of_row(&pixels);
    let r = find_bar_boundary(&img, &row_line(10), &SaBarClassifier);
    assert_eq!(r, Some(Ratio { num: 6, den: 10 }));
}

#[test]
fn boundary_hidden_run_without_foreground_is_unreadable() {
    let mut pixels = vec![BLUE_EMPTY; 11];
    pixels[0] = GREEN_UNKNOWN;
    pixels[1] = GREEN_UNKNOWN;
    pixels[2] = GREEN_UNKNOWN;
    let img = image_of_row(&pixels);
    let r = find_bar_boundary(&img, &row_line(10), &SaBarClassifier);
    assert_eq!(r, None);
}

#[test]
fn boundary_trusts_last_foreground_across_occlusion() {
    // fill, fill, unknown, unknown, background...: the last confirmed
    // foreground index is 1, so the boundary is (1 + 1) / width.
    let mut pixels = vec![BLUE_EMPTY; 11];
    pixels[0] = CYAN_FILL;
    pixels[1] = CYAN_FILL;
    pixels[2] = GREEN_UNKNOWN;
    pixels[3] = GREEN_UNKNOWN;
    let img = image_of_row(&pixels);
    let r = find_bar_boundary(&img, &row_line(10), &SaBarClassifier);
    assert_eq!(r, Some(Ratio { num: 2, den: 10 }));
}

#[test]
fn boundary_scan_ending_in_unknown_resolves_from_last_foreground() {
    let mut pixels = vec![GREEN_UNKNOWN; 11];
    pixels[0] = CYAN_FILL;
    pixels[1] = CYAN_FILL;
    pixels[2] = CYAN_FILL;
    let img = image_of_row(&pixels);
    let r = find_bar_boundary(&img, &row_line(10), &SaBarClassifier);
    assert_eq!(r, Some(Ratio { num: 3, den: 10 }));
}

#[test]
fn generic_hp_strategy_reads_fill_ratio() {
    // The generic strategy: detailed HP classification collapsed to the
    // scanner's alphabet. Yellow fill followed by the depleted blue
    // background reads the transition exactly.
    let yellow = (255, 255, 0);
    let hp_background = (0, 94, 255);
    let mut pixels = vec![yellow; 11];
    for p in pixels.iter_mut().skip(7) {
        *p = hp_background;
    }
    let img = image_of_row(&pixels);
    let r = find_bar_boundary(&img, &row_line(10), &HpBarClassifier);
    assert_eq!(r, Some(Ratio { num: 7, den: 10 }));
}

#[test]
fn boundary_scan_ending_in_unknown_without_foreground_is_full() {
    let pixels = vec![GREEN_UNKNOWN; 11];
    let img = image_of_row(&pixels);
    let r = find_bar_boundary(&img, &row_line(10), &SaBarClassifier);
    assert_eq!(r, Some(Ratio { num: 10, den: 10 }));
}
