//! Mapping a detected centroid into output commands.
//!
//! The dispatcher turns the centroid's offset from the frame's exact
//! geometric center into a command sequence for the output device. The
//! center of a `fov`-pixel-wide view is `fov / 2` — a half-integer when
//! `fov` is odd — so offsets are carried doubled (`2 * x - fov`, always an
//! integer) and displacements in half-milli units: with a gain of `m`
//! thousandths of a device unit per pixel, a doubled offset `d2` yields the
//! exact displacement `d2 * m` half-milli units, that is `d2 * m / 2000`
//! device units. The device layer divides by two thousand when it converts
//! a command into device units.

use vstd::prelude::*;
use crate::color::Hsv;

verus! {

/// The action kinds a cycle can be asked to perform.
#[derive(Clone, Copy, Debug, PartialEq, Eq, Structural)]
pub enum Action {
    Move,
    Click,
    Flick,
}

/// The policy for the displacement that restores the cursor after a flick's
/// click: the exact inverse of the flick, or half its magnitude (truncated
/// toward zero in half-milli units). Both have been observed in the wild;
/// `HalfInverse` is the default.
#[derive(Clone, Copy, Debug, PartialEq, Eq, Structural)]
pub enum FlickRestore {
    HalfInverse,
    FullInverse,
}

/// One command for the output device. Displacements are in half-milli
/// units: two-thousandths of the device's displacement unit, so that the
/// half-pixel offsets from an odd field of view's exact center stay exact.
#[derive(Clone, Copy, Debug, PartialEq, Eq, Structural)]
pub enum Command {
    /// A cursor displacement.
    MoveBy { dx_half_milli: i64, dy_half_milli: i64 },
    /// A click.
    Click,
    /// A rapid displacement, as the opening or closing leg of a flick.
    FlickBy { dx_half_milli: i64, dy_half_milli: i64 },
}

/// The per-cycle configuration: capture-region origin and extent, the two
/// gain scalars in milli-units per pixel, the flick restoration policy, and
/// the inclusive HSV acceptance window.
#[derive(Clone, Copy, Debug)]
pub struct Config {
    /// Capture-region origin.
    pub x: i32,
    pub y: i32,
    /// Capture-region extent: the field of view, in pixels.
    pub x_fov: u32,
    pub y_fov: u32,
    /// Gain applied to a move offset, in thousandths per pixel.
    pub move_speed_milli: u32,
    /// Gain applied to a flick offset, in thousandths per pixel.
    pub flick_speed_milli: u32,
    /// How far the closing leg of a flick displaces back.
    pub flick_restore: FlickRestore,
    /// Inclusive lower bound of the HSV acceptance window.
    pub lower_hsv: Hsv,
    /// Inclusive upper bound of the HSV acceptance window.
    pub upper_hsv: Hsv,
}

impl Config {
    /// The field of view fits the frame-dimension cap and the acceptance
    /// window is ordered componentwise.
    pub open spec fn wf(self) -> bool {
        &&& self.x_fov <= crate::frame::MAX_DIM
        &&& self.y_fov <= crate::frame::MAX_DIM
        &&& self.lower_hsv.h <= self.upper_hsv.h
        &&& self.lower_hsv.s <= self.upper_hsv.s
        &&& self.lower_hsv.v <= self.upper_hsv.v
    }
}

impl Default for Config {
    /// A 75-by-75 field of view at the origin, the empirically calibrated
    /// default gains, the half-magnitude restore, and a window that accepts
    /// a band of purple.
    fn default() -> (r: Config)
        ensures
            r == default_config(),
    {
        Config {
            x: 0,
            y: 0,
            x_fov: 75,
            y_fov: 75,
            move_speed_milli: 435,
            flick_speed_milli: 4628,
            flick_restore: FlickRestore::HalfInverse,
            lower_hsv: Hsv { h: 140, s: 120, v: 180 },
            upper_hsv: Hsv { h: 160, s: 200, v: 255 },
        }
    }
}

pub open spec fn default_config() -> Config {
    Config {
        x: 0,
        y: 0,
        x_fov: 75,
        y_fov: 75,
        move_speed_milli: 435,
        flick_speed_milli: 4628,
        flick_restore: FlickRestore::HalfInverse,
        lower_hsv: Hsv { h: 140, s: 120, v: 180 },
        upper_hsv: Hsv { h: 160, s: 200, v: 255 },
    }
}

/// Half of `n`, truncated toward zero.
pub open spec fn half_toward_zero(n: int) -> int {
    if n >= 0 {
        n / 2
    } else {
        -((-n) / 2)
    }
}

/// Twice the offset of a target at column `x` from the exact geometric
/// center of a field of view `fov` pixels wide: the center is `fov / 2`
/// (a half-integer when `fov` is odd), so the doubled offset `2 * x - fov`
/// carries it without loss.
pub open spec fn spec_twice_offset(x: int, fov: int) -> int {
    2 * x - fov
}

/// The command sequence for one dispatch: nothing without a centroid; a
/// gain-scaled displacement for `Move`; a click for `Click` exactly when
/// the centroid is within the asymmetric centering tolerance of the exact
/// center (4 pixels horizontally, 10 vertically — 8 and 20 in doubled
/// offsets); and for `Flick` a scaled displacement, a click, and the
/// restoring displacement the policy prescribes.
pub open spec fn spec_dispatch(action: Action, centroid: Option<(i32, i32)>, cfg: Config) -> Seq<
    Command,
> {
    match centroid {
        None => Seq::empty(),
        Some(t) => {
            let dx2 = spec_twice_offset(t.0 as int, cfg.x_fov as int);
            let dy2 = spec_twice_offset(t.1 as int, cfg.y_fov as int);
            match action {
                Action::Move => seq![
                    Command::MoveBy {
                        dx_half_milli: (dx2 * cfg.move_speed_milli) as i64,
                        dy_half_milli: (dy2 * cfg.move_speed_milli) as i64,
                    },
                ],
                Action::Click => if -8 <= dx2 <= 8 && -20 <= dy2 <= 20 {
                    seq![Command::Click]
                } else {
                    Seq::empty()
                },
                Action::Flick => {
                    let fx = dx2 * cfg.flick_speed_milli;
                    let fy = dy2 * cfg.flick_speed_milli;
                    let rx = match cfg.flick_restore {
                        FlickRestore::HalfInverse => -half_toward_zero(fx),
                        FlickRestore::FullInverse => -fx,
                    };
                    let ry = match cfg.flick_restore {
                        FlickRestore::HalfInverse => -half_toward_zero(fy),
                        FlickRestore::FullInverse => -fy,
                    };
                    seq![
                        Command::FlickBy { dx_half_milli: fx as i64, dy_half_milli: fy as i64 },
                        Command::Click,
                        Command::FlickBy { dx_half_milli: rx as i64, dy_half_milli: ry as i64 },
                    ]
                },
            }
        },
    }
}

/// The scaled displacement along one axis, in half-milli units: the doubled
/// offset from the exact field-of-view center times the gain.
fn scaled_offset(coord: i32, fov: u32, gain_milli: u32) -> (r: i64)
    requires
        0 <= coord <= 65535,
        fov <= crate::frame::MAX_DIM,
    ensures
        r == spec_twice_offset(coord as int, fov as int) * gain_milli,
        -131072 * 0x1_0000_0000 <= r <= 131070 * 0x1_0000_0000,
{
    let d: i64 = 2 * (coord as i64) - (fov as i64);
    proof {
        assert(-65535 <= d <= 131070);
        assert(d * (gain_milli as int) <= 131070 * 0x1_0000_0000) by (nonlinear_arith)
            requires
                d <= 131070,
                0 <= (gain_milli as int) < 0x1_0000_0000,
        ;
        assert(d * (gain_milli as int) >= -131072 * 0x1_0000_0000) by (nonlinear_arith)
            requires
                d >= -131072,
                0 <= (gain_milli as int) < 0x1_0000_0000,
        ;
    }
    d * (gain_milli as i64)
}

/// Half of `n`, truncated toward zero, as an executable step.
fn halve_toward_zero(n: i64) -> (r: i64)
    requires
        -0x4000_0000_0000_0000 < n < 0x4000_0000_0000_0000,
    ensures
        r == half_toward_zero(n as int),
{
    if n >= 0 {
        let m: u64 = (n as u64) / 2;
        m as i64
    } else {
        let m: u64 = ((-n) as u64) / 2;
        proof {
            crate::color::lemma_div_upper((-n) as int, 2, 0x4000_0000_0000_0000 - 1);
            crate::color::lemma_div_lower((-n) as int, 2, 0);
        }
        -(m as i64)
    }
}

/// Compute the command sequence for one cycle's action, given the detected
/// centroid (or its absence). The centroid coordinates are expected to be
/// frame coordinates, hence within the frame-dimension cap.
pub fn dispatch(action: Action, centroid: Option<(i32, i32)>, cfg: &Config) -> (r: Vec<Command>)
    requires
        cfg.wf(),
        match centroid {
            Some(t) => 0 <= t.0 <= 65535 && 0 <= t.1 <= 65535,
            None => true,
        },
    ensures
        r@ == spec_dispatch(action, centroid, *cfg),
{
    let mut out: Vec<Command> = Vec::new();
    let t = match centroid {
        None => {
            proof {
                assert(out@ =~= spec_dispatch(action, centroid, *cfg));
            }
            return out;
        },
        Some(t) => t,
    };
    match action {
        Action::Move => {
            let dxm = scaled_offset(t.0, cfg.x_fov, cfg.move_speed_milli);
            let dym = scaled_offset(t.1, cfg.y_fov, cfg.move_speed_milli);
            out.push(Command::MoveBy { dx_half_milli: dxm, dy_half_milli: dym });
            proof {
                assert(out@ =~= spec_dispatch(action, centroid, *cfg));
            }
        },
        Action::Click => {
            let dx2: i64 = 2 * (t.0 as i64) - (cfg.x_fov as i64);
            let dy2: i64 = 2 * (t.1 as i64) - (cfg.y_fov as i64);
            if -8 <= dx2 && dx2 <= 8 && -20 <= dy2 && dy2 <= 20 {
                out.push(Command::Click);
            }
            proof {
                assert(out@ =~= spec_dispatch(action, centroid, *cfg));
            }
        },
        Action::Flick => {
            let fx = scaled_offset(t.0, cfg.x_fov, cfg.flick_speed_milli);
            let fy = scaled_offset(t.1, cfg.y_fov, cfg.flick_speed_milli);
            let (rx, ry) = match cfg.flick_restore {
                FlickRestore::HalfInverse => (-halve_toward_zero(fx), -halve_toward_zero(fy)),
                FlickRestore::FullInverse => (-fx, -fy),
            };
            out.push(Command::FlickBy { dx_half_milli: fx, dy_half_milli: fy });
            out.push(Command::Click);
            out.push(Command::FlickBy { dx_half_milli: rx, dy_half_milli: ry });
            proof {
                assert(out@ =~= spec_dispatch(action, centroid, *cfg));
            }
        },
    }
    out
}

/// The move command scales linearly with the move gain: for a configuration
/// whose move gain is `k` times as large (and whose field of view agrees),
/// the issued displacement is exactly `k` times the unscaled displacement,
/// componentwise. The requirements name every field the move dispatch
/// reads, so the command depends on the stored gain alone: changing
/// anything else — in particular whatever sensitivity the gain was once
/// derived from — cannot alter the output unless the gain is re-derived.
pub proof fn lemma_move_scales_with_gain(t: (i32, i32), cfg: Config, cfg2: Config, k: int)
    requires
        cfg2.x_fov == cfg.x_fov,
        cfg2.y_fov == cfg.y_fov,
        cfg2.move_speed_milli == k * cfg.move_speed_milli,
    ensures
        spec_dispatch(Action::Move, Some(t), cfg2) =~= seq![
            (Command::MoveBy {
                dx_half_milli: (k * (spec_twice_offset(t.0 as int, cfg.x_fov as int)
                    * cfg.move_speed_milli)) as i64,
                dy_half_milli: (k * (spec_twice_offset(t.1 as int, cfg.y_fov as int)
                    * cfg.move_speed_milli)) as i64,
            }),
        ],
{
    let dx2 = spec_twice_offset(t.0 as int, cfg.x_fov as int);
    let dy2 = spec_twice_offset(t.1 as int, cfg.y_fov as int);
    assert(dx2 * (k * cfg.move_speed_milli) == k * (dx2 * cfg.move_speed_milli))
        by (nonlinear_arith);
    assert(dy2 * (k * cfg.move_speed_milli) == k * (dy2 * cfg.move_speed_milli))
        by (nonlinear_arith);
}

} // verus!
