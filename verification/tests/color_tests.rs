use colorant::color::rgb_to_hsv;
use colorant::color::rgb_to_hsv_with;
use colorant::color::HueWrap;

#[test]
fn hsv_components_stay_in_range_on_sampled_inputs() {
    let mut r: u32 = 0;
    while r < 256 {
        let mut g: u32 = 0;
        while g < 256 {
            let mut b: u32 = 0;
            while b < 256 {
                let (h, _s, _v) = rgb_to_hsv(r as u8, g as u8, b as u8);
                assert!(h <= 180);
                b += 15;
            }
            g += 15;
        }
        r += 15;
    }
}

#[test]
fn grayscale_has_zero_hue_and_saturation() {
    let mut c: u32 = 0;
    while c < 256 {
        let (h, s, v) = rgb_to_hsv(c as u8, c as u8, c as u8);
        assert_eq!(h, 0);
        assert_eq!(s, 0);
        assert_eq!(v, c as u8);
        c += 1;
    }
}

#[test]
fn pure_red_fixed_point() {
    assert_eq!(rgb_to_hsv(255, 0, 0), (0, 255, 255));
}

#[test]
fn pure_green_fixed_point() {
    assert_eq!(rgb_to_hsv(0, 255, 0), (60, 255, 255));
}

#[test]
fn pure_blue_fixed_point() {
    assert_eq!(rgb_to_hsv(0, 0, 255), (120, 255, 255));
}

#[test]
fn secondary_color_fixed_points() {
    // yellow 60 degrees, cyan 180 degrees, magenta 300 degrees, halved
    assert_eq!(rgb_to_hsv(255, 255, 0), (30, 255, 255));
    assert_eq!(rgb_to_hsv(0, 255, 255), (90, 255, 255));
    assert_eq!(rgb_to_hsv(255, 0, 255), (150, 255, 255));
}

#[test]
fn hue_truncates_toward_zero() {
    // (255, 10, 0): hue angle is 60 * (10 / 255) = 2.35... degrees, so the
    // half-range hue is 1.17... and must come out as exactly 1.
    let (h, _, _) = rgb_to_hsv(255, 10, 0);
    assert_eq!(h, 1);
    // (255, 0, 10): the angle wraps to 357.64... degrees; halved it is
    // 178.82..., truncated to 178.
    let (h2, _, _) = rgb_to_hsv(255, 0, 10);
    assert_eq!(h2, 178);
}

#[test]
fn saturation_rounds_half_up() {
    // max 200, min 100: s = 100 / 200 * 255 = 127.5, rounded half up to 128.
    let (_, s, v) = rgb_to_hsv(200, 100, 100);
    assert_eq!(s, 128);
    assert_eq!(v, 200);
}

#[test]
fn hue_wrap_policies_agree_on_sampled_inputs() {
    let samples: [(u8, u8, u8); 8] = [
        (255, 0, 10),
        (255, 10, 0),
        (0, 255, 128),
        (17, 3, 250),
        (140, 140, 141),
        (255, 254, 255),
        (1, 0, 0),
        (0, 1, 2),
    ];
    for &(r, g, b) in samples.iter() {
        assert_eq!(
            rgb_to_hsv_with(HueWrap::NegativeOffset, r, g, b),
            rgb_to_hsv_with(HueWrap::ModuloSix, r, g, b)
        );
    }
}
