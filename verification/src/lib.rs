//! A single-frame visual target-acquisition core.
//!
//! The library converts RGB pixels into the half-range HSV representation,
//! scans a frame for pixels inside a configured HSV window, computes the
//! centroid of the matching region, and maps the centroid's offset from the
//! frame center into output commands (a displacement, a click, or a
//! displace-click-restore sequence). A small state machine owns the
//! enabled/disabled toggle and the idempotent shutdown transition.
//!
//! All frame acquisition and output-device I/O stays outside the library:
//! callers hand in frames as plain pixel grids and execute the returned
//! commands on whatever device they drive.

pub mod color;
pub mod detect;
pub mod dispatch;
pub mod engine;
pub mod frame;
