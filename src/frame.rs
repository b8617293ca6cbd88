//! Per-frame decisions of the frame driver: the visualizer in use, when
//! particles spawn, and how the rotation advances.
use vstd::prelude::*;
use crate::fixed::ONE;
use crate::angle::TWO_PI;
use crate::config::{VisualizerConfig, PARAM_LIMIT};
use crate::particle::MAX_DT;

verus! {

#[derive(Clone, Copy, Debug, PartialEq, Eq, Structural)]
pub enum VisualizerMode {
    Fractal,
    UnknownPleasures,
}

/// The rotation is kept modulo `20 pi`: the fractal's root turns by a tenth
/// of it, so nothing it draws changes.
pub const ROTATION_PERIOD: u64 = 10 * TWO_PI;

/// Whether this frame spawns particles: on a beat, when pulsing is on, and
/// not under the ridgeline view.
pub fn spawns_particles(beat: bool, cfg: &VisualizerConfig, mode: VisualizerMode) -> (r: bool)
    ensures
        r == (beat && cfg.pulse_on_beat && mode != VisualizerMode::UnknownPleasures),
{
    beat && cfg.pulse_on_beat && mode != VisualizerMode::UnknownPleasures
}

pub open spec fn spec_rotation(rotation: int, cfg: VisualizerConfig, beat: bool, dt: int) -> int {
    if cfg.auto_rotate {
        let boost = if beat { cfg.rotation_beat_mult as int } else { 0 };
        (rotation + (cfg.rotation_speed + boost) * dt / ONE as int) % (ROTATION_PERIOD as int)
    } else {
        rotation
    }
}

/// Advances the rotation by `(speed + beat boost) * dt` when auto-rotation
/// is on.
pub fn advance_rotation(rotation: u64, cfg: &VisualizerConfig, beat: bool, dt: u64) -> (r: u64)
    requires
        rotation < ROTATION_PERIOD,
        dt <= MAX_DT,
        cfg.rotation_speed <= PARAM_LIMIT,
        cfg.rotation_beat_mult <= PARAM_LIMIT,
    ensures
        r == spec_rotation(rotation as int, *cfg, beat, dt as int),
        r < ROTATION_PERIOD,
{
    if cfg.auto_rotate {
        let boost = if beat { cfg.rotation_beat_mult } else { 0 };
        assert((cfg.rotation_speed + boost) * dt <= 2 * PARAM_LIMIT * MAX_DT) by (nonlinear_arith)
            requires cfg.rotation_speed <= PARAM_LIMIT, boost <= PARAM_LIMIT, dt <= MAX_DT;
        (rotation + (cfg.rotation_speed + boost) * dt / ONE) % ROTATION_PERIOD
    } else {
        rotation
    }
}

/// Whole minutes and the remaining seconds of a time in seconds of
/// `1 / ONE`, for an `mm:ss` display.
pub fn time_parts(t: u64) -> (r: (u64, u64))
    ensures
        r.0 == t / ONE / 60,
        r.1 == t / ONE % 60,
        r.1 < 60,
{
    let s = t / ONE;
    (s / 60, s % 60)
}

} // verus!
