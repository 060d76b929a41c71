use recmari::ratio::Ratio;
use recmari::rect::{NormalizedRect, PixelRect};

#[test]
fn scale_to_same_resolution() {
    let r = PixelRect { x: 100, y: 50, w: 200, h: 30 };
    let scaled = r.scale_to(1920, 1080, 1920, 1080);
    assert_eq!(scaled.x, 100);
    assert_eq!(scaled.y, 50);
    assert_eq!(scaled.w, 200);
    assert_eq!(scaled.h, 30);
}

#[test]
fn scale_to_half_resolution() {
    let r = PixelRect { x: 100, y: 40, w: 800, h: 20 };
    let scaled = r.scale_to(960, 540, 1920, 1080);
    assert_eq!(scaled.x, 50);
    assert_eq!(scaled.y, 20);
    assert_eq!(scaled.w, 400);
    assert_eq!(scaled.h, 10);
}

#[test]
fn normalized_to_pixel() {
    let n = NormalizedRect {
        x: Ratio::new(1, 2),
        y: Ratio::new(1, 4),
        w: Ratio::new(1, 10),
        h: Ratio::new(1, 20),
    };
    let p = n.to_pixel_rect(1920, 1080);
    assert_eq!(p.x, 960);
    assert_eq!(p.y, 270);
    assert_eq!(p.w, 192);
    assert_eq!(p.h, 54);
}

#[test]
fn ratio_comparisons() {
    let half = Ratio::new(1, 2);
    let six_tenths = Ratio::new(6, 10);
    let also_half = Ratio::new(5, 10);
    assert!(half.lt(&six_tenths));
    assert!(!six_tenths.lt(&half));
    assert!(!half.lt(&also_half));
    assert!(six_tenths.ge(&half));
    assert!(half.ge(&also_half));
}
