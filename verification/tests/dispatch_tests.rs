use colorant::color::Hsv;
use colorant::dispatch::dispatch;
use colorant::dispatch::Action;
use colorant::dispatch::Command;
use colorant::dispatch::Config;
use colorant::dispatch::FlickRestore;

fn test_config() -> Config {
    Config {
        x: 0,
        y: 0,
        x_fov: 10,
        y_fov: 10,
        move_speed_milli: 1000,
        flick_speed_milli: 2000,
        flick_restore: FlickRestore::HalfInverse,
        lower_hsv: Hsv { h: 0, s: 0, v: 200 },
        upper_hsv: Hsv { h: 180, s: 255, v: 255 },
    }
}

#[test]
fn no_centroid_issues_nothing() {
    let cfg = test_config();
    assert!(dispatch(Action::Move, None, &cfg).is_empty());
    assert!(dispatch(Action::Click, None, &cfg).is_empty());
    assert!(dispatch(Action::Flick, None, &cfg).is_empty());
}

#[test]
fn move_scales_offset_by_gain() {
    let cfg = test_config();
    // center is (5, 5); target (7, 2) gives offsets (2, -3), doubled (4, -6)
    let cmds = dispatch(Action::Move, Some((7, 2)), &cfg);
    assert_eq!(cmds, vec![Command::MoveBy { dx_half_milli: 4000, dy_half_milli: -6000 }]);
}

#[test]
fn move_is_linear_in_gain() {
    let cfg = test_config();
    let mut doubled = test_config();
    doubled.move_speed_milli = 2 * cfg.move_speed_milli;
    let base = dispatch(Action::Move, Some((9, 1)), &cfg);
    let twice = dispatch(Action::Move, Some((9, 1)), &doubled);
    match (&base[0], &twice[0]) {
        (
            Command::MoveBy { dx_half_milli: bx, dy_half_milli: by },
            Command::MoveBy { dx_half_milli: tx, dy_half_milli: ty },
        ) => {
            assert_eq!(*tx, 2 * *bx);
            assert_eq!(*ty, 2 * *by);
        },
        _ => panic!("expected move commands"),
    }
}

#[test]
fn click_issued_inside_asymmetric_tolerance() {
    let cfg = test_config();
    // exactly at (center_x + 4, center_y + 10): a click is issued
    let cmds = dispatch(Action::Click, Some((5 + 4, 5 + 10)), &cfg);
    assert_eq!(cmds, vec![Command::Click]);
}

#[test]
fn click_withheld_outside_horizontal_tolerance() {
    let cfg = test_config();
    // at (center_x + 5, center_y): no click
    let cmds = dispatch(Action::Click, Some((5 + 5, 5)), &cfg);
    assert!(cmds.is_empty());
}

#[test]
fn click_withheld_outside_vertical_tolerance() {
    let cfg = test_config();
    let cmds = dispatch(Action::Click, Some((5, 5 + 11)), &cfg);
    assert!(cmds.is_empty());
}

#[test]
fn flick_issues_displace_click_restore_half() {
    let cfg = test_config();
    // target (8, 3): doubled offsets (6, -4); flick gain 2000 gives
    // (12000, -8000) half-milli, i.e. (6, -4) device units
    let cmds = dispatch(Action::Flick, Some((8, 3)), &cfg);
    assert_eq!(
        cmds,
        vec![
            Command::FlickBy { dx_half_milli: 12000, dy_half_milli: -8000 },
            Command::Click,
            Command::FlickBy { dx_half_milli: -6000, dy_half_milli: 4000 },
        ]
    );
}

#[test]
fn flick_restore_full_inverse() {
    let mut cfg = test_config();
    cfg.flick_restore = FlickRestore::FullInverse;
    let cmds = dispatch(Action::Flick, Some((8, 3)), &cfg);
    assert_eq!(
        cmds,
        vec![
            Command::FlickBy { dx_half_milli: 12000, dy_half_milli: -8000 },
            Command::Click,
            Command::FlickBy { dx_half_milli: -12000, dy_half_milli: 8000 },
        ]
    );
}

#[test]
fn flick_half_restore_truncates_toward_zero() {
    let mut cfg = test_config();
    cfg.x_fov = 9;
    cfg.y_fov = 9;
    cfg.flick_speed_milli = 555;
    // the exact center of a 9-wide view is 4.5; target (5, 4) has doubled
    // offsets (1, -1), so the flick is (555, -555) half-milli and the half
    // restore truncates 277.5 toward zero on both signs: (-277, 277)
    let cmds = dispatch(Action::Flick, Some((5, 4)), &cfg);
    assert_eq!(
        cmds,
        vec![
            Command::FlickBy { dx_half_milli: 555, dy_half_milli: -555 },
            Command::Click,
            Command::FlickBy { dx_half_milli: -277, dy_half_milli: 277 },
        ]
    );
}

#[test]
fn odd_fov_click_measures_from_exact_center() {
    let mut cfg = test_config();
    cfg.x_fov = 13;
    cfg.y_fov = 13;
    // the exact center is (6.5, 6.5); a centroid at x = 2 is 4.5 pixels
    // out, beyond the 4-pixel tolerance: no click
    assert!(dispatch(Action::Click, Some((2, 6)), &cfg).is_empty());
    // at x = 3 the offset is 3.5: a click is issued
    assert_eq!(dispatch(Action::Click, Some((3, 6)), &cfg), vec![Command::Click]);
}

#[test]
fn odd_fov_move_uses_half_pixel_offset() {
    let mut cfg = test_config();
    cfg.x_fov = 13;
    cfg.y_fov = 13;
    // centroid (2, 6) is (-4.5, -0.5) from the exact center (6.5, 6.5);
    // under a gain of 1000 milli the displacement is (-4.5, -0.5) device
    // units: (-9000, -1000) half-milli
    let cmds = dispatch(Action::Move, Some((2, 6)), &cfg);
    assert_eq!(cmds, vec![Command::MoveBy { dx_half_milli: -9000, dy_half_milli: -1000 }]);
}

#[test]
fn default_config_matches_documented_values() {
    let cfg = Config::default();
    assert_eq!(cfg.x_fov, 75);
    assert_eq!(cfg.y_fov, 75);
    assert_eq!(cfg.move_speed_milli, 435);
    assert_eq!(cfg.flick_speed_milli, 4628);
    assert_eq!(cfg.lower_hsv, Hsv { h: 140, s: 120, v: 180 });
    assert_eq!(cfg.upper_hsv, Hsv { h: 160, s: 200, v: 255 });
}
