use colorant::color::Hsv;
use colorant::detect::detect;
use colorant::frame::Frame;
use colorant::frame::Rgb;

const WHITE: Rgb = Rgb { r: 255, g: 255, b: 255 };
const BLACK: Rgb = Rgb { r: 0, g: 0, b: 0 };

// A window that accepts bright pixels (value at least 200) of any hue and
// saturation: white matches it, black does not.
fn bright_window() -> (Hsv, Hsv) {
    (Hsv { h: 0, s: 0, v: 200 }, Hsv { h: 180, s: 255, v: 255 })
}

// A width x height black frame with a white rectangle [x0, x1] x [y0, y1].
fn frame_with_rect(width: u32, height: u32, x0: u32, x1: u32, y0: u32, y1: u32) -> Frame {
    let mut pixels: Vec<Rgb> = Vec::new();
    for y in 0..height {
        for x in 0..width {
            if x0 <= x && x <= x1 && y0 <= y && y <= y1 {
                pixels.push(WHITE);
            } else {
                pixels.push(BLACK);
            }
        }
    }
    Frame::new(width, height, pixels).unwrap()
}

#[test]
fn zero_matching_pixels_returns_no_target() {
    let mut pixels: Vec<Rgb> = Vec::new();
    for _ in 0..100 {
        pixels.push(BLACK);
    }
    let frame = Frame::new(10, 10, pixels).unwrap();
    let (lo, hi) = bright_window();
    assert_eq!(detect(&frame, lo, hi, 0), None);
}

#[test]
fn count_at_threshold_is_excluded() {
    // a 3 x 2 white rectangle: exactly 6 matching pixels
    let frame = frame_with_rect(10, 10, 2, 4, 3, 4);
    let (lo, hi) = bright_window();
    // count == threshold: excluded
    assert_eq!(detect(&frame, lo, hi, 6), None);
    // count == threshold + 1: reported
    assert!(detect(&frame, lo, hi, 5).is_some());
}

#[test]
fn centroid_of_uniform_rectangle_is_truncated_center() {
    // [2, 7] x [3, 8]: center (4.5, 5.5) truncates to (4, 5)
    let frame = frame_with_rect(10, 10, 2, 7, 3, 8);
    let (lo, hi) = bright_window();
    assert_eq!(detect(&frame, lo, hi, 0), Some((4, 5)));

    // [3, 7] x [2, 6]: exact center (5, 4)
    let frame2 = frame_with_rect(12, 9, 3, 7, 2, 6);
    assert_eq!(detect(&frame2, lo, hi, 0), Some((5, 4)));
}

#[test]
fn full_frame_match_centers_on_frame() {
    let frame = frame_with_rect(10, 10, 0, 9, 0, 9);
    let (lo, hi) = bright_window();
    assert_eq!(detect(&frame, lo, hi, 50), Some((4, 4)));
}

#[test]
fn frame_new_rejects_mismatched_dimensions() {
    let mut pixels: Vec<Rgb> = Vec::new();
    for _ in 0..99 {
        pixels.push(BLACK);
    }
    assert!(Frame::new(10, 10, pixels).is_none());
    let mut pixels2: Vec<Rgb> = Vec::new();
    for _ in 0..4 {
        pixels2.push(BLACK);
    }
    assert!(Frame::new(2, 2, pixels2).is_some());
}

#[test]
fn frame_new_rejects_oversized_dimensions() {
    let pixels: Vec<Rgb> = Vec::new();
    assert!(Frame::new(65536, 0, pixels).is_none());
}

#[test]
fn detection_uses_inclusive_window_bounds() {
    // a pixel whose HSV is exactly on the window edges still matches
    let p = Rgb { r: 255, g: 0, b: 0 };  // (0, 255, 255)
    let mut pixels: Vec<Rgb> = Vec::new();
    for _ in 0..4 {
        pixels.push(p);
    }
    let frame = Frame::new(2, 2, pixels).unwrap();
    let lo = Hsv { h: 0, s: 255, v: 255 };
    let hi = Hsv { h: 0, s: 255, v: 255 };
    assert_eq!(detect(&frame, lo, hi, 3), Some((0, 0)));
    // tighten any bound past the pixel and it no longer matches
    let hi2 = Hsv { h: 0, s: 254, v: 255 };
    let lo2 = Hsv { h: 0, s: 0, v: 0 };
    assert_eq!(detect(&frame, lo2, hi2, 0), None);
}
