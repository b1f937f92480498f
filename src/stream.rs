//! Stream pressure: lingering in a fast zone builds pressure until the
//! stream sweeps the entity back.
use vstd::prelude::*;

use crate::world::Direction;

verus! {

/// Pressure at which the stream sweeps an entity back, in thousandths.
pub const PRESSURE_THRESHOLD: u32 = 1000;

/// Pressure left after a sweep: the entity is still in danger.
pub const PRESSURE_AFTER_PUSH: u32 = 300;

/// Pressure lost per second outside a zone, in thousandths.
pub const PRESSURE_DECAY: u32 = 150;

/// First warning level, in thousandths.
pub const PRESSURE_HALF: u32 = 500;

/// Second warning level, in thousandths.
pub const PRESSURE_CRITICAL: u32 = 750;

/// The direction a sweep pushes toward.
pub const SAFE_DIRECTION: Direction = Direction::West;

/// One entity's pressure after one tick.
#[derive(PartialEq, Eq, Structural, Debug, Clone, Copy)]
pub struct PressureStep {
    pub pressure: u32,
    /// The first warning level was crossed in this tick.
    pub warn_half: bool,
    /// The second warning level was crossed in this tick.
    pub warn_critical: bool,
    /// The threshold was reached: the entity is swept back.
    pub push: bool,
    /// Outside a zone, the pressure has just drained away.
    pub cleared: bool,
}

/// Pressure gained in `dt_ms` milliseconds in a zone of `rate` (thousandths
/// per second), reduced by half the entity's entropy.
pub open spec fn gain_spec(rate: u32, entropy: u32, dt_ms: u32) -> int {
    rate * (1000 - entropy / 2) / 1000 * dt_ms / 1000
}

/// One tick of pressure for an entity with `current` pressure and `entropy`
/// (at most 1000), in a zone of `rate` or outside any zone.
pub open spec fn pressure_spec(current: u32, rate: Option<u32>, entropy: u32, dt_ms: u32) -> PressureStep {
    match rate {
        Some(rate) => {
            let raised = current + gain_spec(rate, entropy, dt_ms);
            let next = if raised > u32::MAX { u32::MAX as int } else { raised };
            let push = next >= PRESSURE_THRESHOLD;
            PressureStep {
                pressure: if push { PRESSURE_AFTER_PUSH } else { next as u32 },
                warn_half: current < PRESSURE_HALF && next >= PRESSURE_HALF,
                warn_critical: current < PRESSURE_CRITICAL && next >= PRESSURE_CRITICAL,
                push,
                cleared: false,
            }
        },
        None => {
            let loss = PRESSURE_DECAY * dt_ms / 1000;
            let next = if current > loss { current - loss } else { 0 };
            PressureStep {
                pressure: next as u32,
                warn_half: false,
                warn_critical: false,
                push: false,
                cleared: current > 0 && next == 0,
            }
        },
    }
}

/// One tick of pressure.
pub fn pressure_step(current: u32, rate: Option<u32>, entropy: u32, dt_ms: u32) -> (r: PressureStep)
    requires
        entropy <= 1000,
    ensures
        r == pressure_spec(current, rate, entropy, dt_ms),
{
    match rate {
        Some(rate) => {
            let keep: u64 = 1000 - (entropy as u64) / 2;
            assert((rate as u64) * keep <= 0xffff_ffff * 1000) by (nonlinear_arith)
                requires
                    keep <= 1000,
            ;
            let per_sec: u64 = (rate as u64) * keep / 1000;
            assert(per_sec <= 0xffff_ffff) by (nonlinear_arith)
                requires
                    per_sec == (rate as u64) * keep / 1000,
                    keep <= 1000,
            ;
            assert(per_sec * (dt_ms as u64) <= 0xffff_ffff * 0xffff_ffffu64) by (nonlinear_arith)
                requires
                    per_sec <= 0xffff_ffff,
            ;
            let gain: u64 = per_sec * (dt_ms as u64) / 1000;
            let raised: u64 = (current as u64).saturating_add(gain);
            let next: u64 = if raised > u32::MAX as u64 { u32::MAX as u64 } else { raised };
            let push = next >= PRESSURE_THRESHOLD as u64;
            PressureStep {
                pressure: if push { PRESSURE_AFTER_PUSH } else { next as u32 },
                warn_half: current < PRESSURE_HALF && next >= PRESSURE_HALF as u64,
                warn_critical: current < PRESSURE_CRITICAL && next >= PRESSURE_CRITICAL as u64,
                push,
                cleared: false,
            }
        },
        None => {
            let loss: u64 = (PRESSURE_DECAY as u64) * (dt_ms as u64) / 1000;
            let next: u64 = if (current as u64) > loss { (current as u64) - loss } else { 0 };
            PressureStep {
                pressure: next as u32,
                warn_half: false,
                warn_critical: false,
                push: false,
                cleared: current > 0 && next == 0,
            }
        },
    }
}

/// Pressure never exceeds the threshold after a tick that swept the entity
/// back, and a sweep always leaves the fixed residual pressure.
pub proof fn lemma_push_resets(current: u32, rate: u32, entropy: u32, dt_ms: u32)
    requires
        pressure_spec(current, Some(rate), entropy, dt_ms).push,
    ensures
        pressure_spec(current, Some(rate), entropy, dt_ms).pressure == PRESSURE_AFTER_PUSH,
        PRESSURE_AFTER_PUSH < PRESSURE_THRESHOLD,
{
}

} // verus!
