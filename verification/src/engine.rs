//! The targeting engine: configuration, the enabled toggle, and the
//! per-cycle decision.
//!
//! The engine is the pure heart of the acquisition loop. The caller owns
//! the frame source and the output device; the engine owns the
//! configuration and the lifecycle state, decides per cycle which commands
//! to issue for a delivered frame (or its absence), and tells the caller
//! which collaborator signal — resume, pause, or the one-time teardown —
//! each lifecycle transition requires, so that a signal is sent once per
//! actual state flip and never after shutdown.

use vstd::prelude::*;
use crate::detect::spec_detect;
use crate::dispatch::Action;
use crate::dispatch::Command;
use crate::dispatch::Config;
use crate::dispatch::spec_dispatch;
use crate::frame::Frame;

verus! {

/// The minimum matching-pixel cluster size: a frame with at most this many
/// matching pixels is treated as noise and yields no target.
pub const MIN_CLUSTER: i64 = 50;

/// A signal the caller must forward to the frame source when a lifecycle
/// transition demands it.
#[derive(Clone, Copy, Debug, PartialEq, Eq, Structural)]
pub enum SourceSignal {
    /// Frame production should resume: the engine became enabled.
    Resume,
    /// Frame production should pause: the engine became disabled.
    Pause,
}

/// The engine: an immutable configuration, the enabled flag, and the
/// terminal stopped flag.
#[derive(Clone, Copy, Debug)]
pub struct ColorantEngine {
    pub config: Config,
    pub enabled: bool,
    pub stopped: bool,
}

/// The state after forcing the enabled flag to `on`.
pub open spec fn spec_set_enabled(e: ColorantEngine, on: bool) -> ColorantEngine {
    ColorantEngine { enabled: on, ..e }
}

/// The signal that forcing the enabled flag to `on` sends to the frame
/// source: one per actual flip, none when the state already agrees.
pub open spec fn spec_set_enabled_signal(e: ColorantEngine, on: bool) -> Option<SourceSignal> {
    if e.enabled == on {
        None
    } else if on {
        Some(SourceSignal::Resume)
    } else {
        Some(SourceSignal::Pause)
    }
}

/// The commands one cycle issues: nothing while disabled or without a
/// frame; otherwise the dispatch of the requested action on the frame's
/// detection outcome under the engine's configuration and the noise
/// threshold.
pub open spec fn spec_process(e: ColorantEngine, action: Action, frame: Option<Frame>) -> Seq<
    Command,
> {
    if !e.enabled {
        Seq::empty()
    } else {
        match frame {
            None => Seq::empty(),
            Some(f) => spec_dispatch(
                action,
                spec_detect(f, e.config.lower_hsv, e.config.upper_hsv, MIN_CLUSTER as int),
                e.config,
            ),
        }
    }
}

impl ColorantEngine {
    pub open spec fn wf(self) -> bool {
        self.config.wf()
    }

    /// A fresh engine: disabled, not stopped, holding the given
    /// configuration. Gain derivation from a sensitivity belongs to the
    /// caller: the configuration arrives with its gains resolved.
    pub fn new(config: Config) -> (r: ColorantEngine)
        requires
            config.wf(),
        ensures
            r.config == config,
            !r.enabled,
            !r.stopped,
            r.wf(),
    {
        ColorantEngine { config, enabled: false, stopped: false }
    }

    pub fn is_enabled(&self) -> (r: bool)
        ensures
            r == self.enabled,
    {
        self.enabled
    }

    /// Flip the enabled flag and report the new state. A flip always
    /// crosses a state boundary, so the caller forwards a resume on `true`
    /// and a pause on `false`.
    pub fn toggle(&mut self) -> (r: bool)
        requires
            !old(self).stopped,
        ensures
            r == final(self).enabled,
            final(self).enabled == !old(self).enabled,
            final(self).config == old(self).config,
            final(self).stopped == old(self).stopped,
    {
        self.enabled = !self.enabled;
        self.enabled
    }

    /// Force the enabled flag to `on` and return the signal the frame
    /// source must receive: one per actual state flip, `None` when the
    /// state already agrees — asking twice for the same state signals once.
    pub fn set_enabled(&mut self, on: bool) -> (r: Option<SourceSignal>)
        requires
            !old(self).stopped,
        ensures
            *final(self) == spec_set_enabled(*old(self), on),
            r == spec_set_enabled_signal(*old(self), on),
            final(self).enabled == on,
    {
        if self.enabled == on {
            None
        } else {
            self.enabled = on;
            if on {
                Some(SourceSignal::Resume)
            } else {
                Some(SourceSignal::Pause)
            }
        }
    }

    /// Decide one cycle: given the requested action and the frame the
    /// source delivered within the cycle's budget (or `None` on a timeout),
    /// return the commands to issue, in order. A disabled engine and a
    /// missing frame are both quiet cycles that issue nothing.
    pub fn process_action(&self, action: Action, frame: Option<&Frame>) -> (r: Vec<Command>)
        requires
            self.wf(),
            match frame {
                Some(f) => f.wf(),
                None => true,
            },
        ensures
            r@ == spec_process(
                *self,
                action,
                match frame {
                    Some(f) => Some(*f),
                    None => None,
                },
            ),
    {
        if !self.enabled {
            let out: Vec<Command> = Vec::new();
            proof {
                assert(out@ =~= Seq::<Command>::empty());
            }
            return out;
        }
        match frame {
            None => {
                let out: Vec<Command> = Vec::new();
                proof {
                    assert(out@ =~= Seq::<Command>::empty());
                }
                out
            },
            Some(f) => {
                let centroid = self.find_target_hsv(f);
                crate::dispatch::dispatch(action, centroid, &self.config)
            },
        }
    }

    /// Scan one frame for a target under the engine's acceptance window and
    /// the noise threshold: the centroid of the matching pixels when more
    /// than `MIN_CLUSTER` of them match, and no target otherwise.
    pub fn find_target_hsv(&self, frame: &Frame) -> (r: Option<(i32, i32)>)
        requires
            self.wf(),
            frame.wf(),
        ensures
            r == spec_detect(*frame, self.config.lower_hsv, self.config.upper_hsv, MIN_CLUSTER as int),
            match r {
                Some(t) => 0 <= t.0 < frame.width && 0 <= t.1 < frame.height,
                None => true,
            },
    {
        crate::detect::detect(frame, self.config.lower_hsv, self.config.upper_hsv, MIN_CLUSTER)
    }

    /// Enter the terminal stopped state. Returns whether the caller must
    /// run the teardown of the collaborators — true on the first call
    /// only, so stop and close are forwarded exactly once however often
    /// shutdown is requested.
    pub fn close(&mut self) -> (r: bool)
        ensures
            final(self).stopped,
            final(self).enabled == old(self).enabled,
            final(self).config == old(self).config,
            r == !old(self).stopped,
    {
        let first = !self.stopped;
        self.stopped = true;
        first
    }
}

/// Requesting the enabled state twice in a row is safe: after the second
/// request the engine is enabled, the first request signals a resume
/// exactly when the engine was disabled, and the second request signals
/// nothing — the frame source sees one resume per actual state flip, not
/// one per call.
pub proof fn lemma_enable_twice(e: ColorantEngine)
    requires
        !e.enabled,
    ensures
        spec_set_enabled(spec_set_enabled(e, true), true).enabled,
        spec_set_enabled_signal(e, true) == Some(SourceSignal::Resume),
        spec_set_enabled_signal(spec_set_enabled(e, true), true) is None,
{
}

} // verus!
