//! Control-loop mode machinery: idle detection, screen debouncing, forced
//! re-check cadence and adaptive sleep selection.
//!
//! The loop itself lives in the outer layer; every decision it takes is a
//! function here, from plain sampled values to plain outcomes.

use vstd::prelude::*;
use crate::tempzone::TempZone;

verus! {

/// Continuous qualifying time needed before idle mode is entered.
pub const IDLE_ENTER_MS: u64 = 10_000;

/// A tick qualifies for idle only below this per-cluster CPU utilization.
pub const IDLE_CPU_MAX: u8 = 15;

/// A tick qualifies for idle only below this GPU utilization.
pub const IDLE_GPU_MAX: u8 = 10;

/// Forced actuator re-check cadence while active.
pub const ENFORCE_ACTIVE_MS: u64 = 6_000;

/// Forced actuator re-check cadence while idle.
pub const ENFORCE_IDLE_MS: u64 = 18_000;

/// A tick qualifies for idle mode: screen off, no oversized background
/// process, every CPU cluster under `IDLE_CPU_MAX` and the GPU under
/// `IDLE_GPU_MAX`.
pub fn idle_qualifying(screen_on: bool, bg_over: bool, max_cpu_util: u8, gpu_util: u8) -> (q: bool)
    ensures
        q == (!screen_on && !bg_over && max_cpu_util < IDLE_CPU_MAX && gpu_util < IDLE_GPU_MAX),
{
    !screen_on && !bg_over && max_cpu_util < IDLE_CPU_MAX && gpu_util < IDLE_GPU_MAX
}

/// What one idle-tracker step decided.
#[derive(Clone, Copy, Debug, PartialEq, Eq, Structural)]
pub enum IdleTransition {
    Stay,
    Enter,
    Exit,
}

/// Accumulates continuous qualifying time and owns the Active/Idle flag.
pub struct IdleTracker {
    pub idle_mode: bool,
    pub accum_ms: u64,
}

impl IdleTracker {
    /// Start out active with an empty accumulator.
    pub fn new() -> (t: IdleTracker)
        ensures
            !t.idle_mode,
            t.accum_ms == 0,
    {
        IdleTracker { idle_mode: false, accum_ms: 0 }
    }

    /// One tick of idle accounting.  Qualifying time accumulates; a single
    /// disqualifying sample resets the accumulator to zero and leaves idle
    /// mode immediately.  Idle mode is entered only once the accumulated
    /// qualifying time reaches `IDLE_ENTER_MS`.  The second result says
    /// whether the domains' desired indices must drop back to their base
    /// (on entry, unless charging or game mode is active).
    pub fn step(&mut self, qualifying: bool, charging: bool, game_mode: bool, dt_ms: u64) -> (r: (
        IdleTransition,
        bool,
    ))
        ensures
            final(self).accum_ms == if qualifying {
                old(self).accum_ms.saturating_add(dt_ms)
            } else {
                0
            },
            r.0 == IdleTransition::Enter <==> !old(self).idle_mode && qualifying && old(
                self,
            ).accum_ms.saturating_add(dt_ms) >= IDLE_ENTER_MS,
            r.0 == IdleTransition::Exit <==> old(self).idle_mode && !qualifying,
            final(self).idle_mode == if r.0 == IdleTransition::Enter {
                true
            } else if r.0 == IdleTransition::Exit {
                false
            } else {
                old(self).idle_mode
            },
            r.1 == (r.0 == IdleTransition::Enter && !charging && !game_mode),
    {
        if qualifying {
            self.accum_ms = self.accum_ms.saturating_add(dt_ms);
        } else {
            self.accum_ms = 0;
        }

        let tr = if !self.idle_mode && self.accum_ms >= IDLE_ENTER_MS {
            self.idle_mode = true;
            IdleTransition::Enter
        } else if self.idle_mode && !qualifying {
            self.idle_mode = false;
            IdleTransition::Exit
        } else {
            IdleTransition::Stay
        };

        let reset_domains = tr == IdleTransition::Enter && !charging && !game_mode;
        (tr, reset_domains)
    }
}

/// Total qualifying time over a sample trace, resetting on each
/// disqualifying sample: the accumulator the tracker would hold after
/// feeding the trace from `start`.
pub open spec fn spec_accum_after(start: u64, samples: Seq<(bool, u64)>) -> u64
    decreases samples.len(),
{
    if samples.len() == 0 {
        start
    } else {
        let prev = spec_accum_after(start, samples.drop_last());
        if samples.last().0 {
            prev.saturating_add(samples.last().1)
        } else {
            0
        }
    }
}

/// Idle mode needs ten continuous qualifying seconds: a trace whose
/// qualifying stretches each total under `IDLE_ENTER_MS` since the last
/// disqualifying sample leaves the accumulator under the threshold, so no
/// step of it can enter idle mode.
pub proof fn lemma_idle_needs_continuous_time(samples: Seq<(bool, u64)>)
    requires
        forall|i: int|
            0 <= i < samples.len() && samples[i].0 ==> spec_accum_after(
                0,
                samples.subrange(0, i + 1),
            ) < IDLE_ENTER_MS,
    ensures
        spec_accum_after(0, samples) < IDLE_ENTER_MS,
    decreases samples.len(),
{
    if samples.len() == 0 {
    } else {
        let pre = samples.drop_last();
        assert(pre =~= samples.subrange(0, samples.len() - 1));
        if samples.last().0 {
            assert(samples.subrange(0, samples.len() as int) =~= samples);
        } else {
            assert(spec_accum_after(0, samples) == 0);
        }
    }
}

/// Screen-off debouncing: the screen only counts as off after two
/// consecutive off samples.
pub struct ScreenFilter {
    pub off_streak: u8,
}

impl ScreenFilter {
    pub fn new() -> (f: ScreenFilter)
        ensures
            f.off_streak == 0,
    {
        ScreenFilter { off_streak: 0 }
    }

    /// Feed one raw reading; returns the debounced screen state.
    pub fn sample(&mut self, raw_on: bool) -> (on: bool)
        ensures
            final(self).off_streak == if raw_on {
                0
            } else {
                old(self).off_streak.saturating_add(1)
            },
            on == (raw_on || final(self).off_streak < 2),
    {
        if raw_on {
            self.off_streak = 0;
            true
        } else {
            self.off_streak = self.off_streak.saturating_add(1);
            self.off_streak < 2
        }
    }
}

/// Whether this tick performs a forced re-check: every 6 s while active,
/// every 18 s while idle.
pub fn force_check_due(now_ms: u64, last_enforce_ms: u64, idle_mode: bool) -> (due: bool)
    requires
        last_enforce_ms <= now_ms,
    ensures
        due == (now_ms - last_enforce_ms >= if idle_mode {
            ENFORCE_IDLE_MS
        } else {
            ENFORCE_ACTIVE_MS
        }),
{
    let every = if idle_mode {
        ENFORCE_IDLE_MS
    } else {
        ENFORCE_ACTIVE_MS
    };
    now_ms - last_enforce_ms >= every
}

/// Sleep between ticks, by urgency.
pub open spec fn spec_sleep_ms(
    zone: TempZone,
    idle_mode: bool,
    charging: bool,
    changed: bool,
    stable_for_ms: u64,
) -> u64 {
    if zone == TempZone::Z120 || zone == TempZone::Z130 {
        450
    } else if idle_mode && !charging {
        6_500
    } else if changed {
        750
    } else if stable_for_ms >= 30_000 {
        3_000
    } else {
        1_500
    }
}

/// Adaptive sleep: 450 ms in the two hottest zones; 6.5 s while idle and
/// not charging; 750 ms right after any actuation or desired-index change;
/// 3 s once nothing has changed for 30 s; 1.5 s otherwise.
pub fn select_sleep_ms(
    zone: TempZone,
    idle_mode: bool,
    charging: bool,
    changed: bool,
    stable_for_ms: u64,
) -> (ms: u64)
    ensures
        ms == spec_sleep_ms(zone, idle_mode, charging, changed, stable_for_ms),
{
    match zone {
        TempZone::Z120 | TempZone::Z130 => 450,
        _ => {
            if idle_mode && !charging {
                6_500
            } else if changed {
                750
            } else if stable_for_ms >= 30_000 {
                3_000
            } else {
                1_500
            }
        },
    }
}

/// Time since the last actuation or desired-index change: zero right after
/// a change, otherwise the previous stretch plus this tick.
pub fn update_stability(stable_for_ms: u64, changed: bool, dt_ms: u64) -> (r: u64)
    ensures
        r == if changed {
            0u64
        } else {
            stable_for_ms.saturating_add(dt_ms)
        },
{
    if changed {
        0
    } else {
        stable_for_ms.saturating_add(dt_ms)
    }
}

} // verus!
