//! Per-domain operating-point state machine: the adaptive, thermally-capped
//! frequency governor core.
//!
//! Each `Domain` owns one CPU cluster's or the GPU's stepping state.  A tick
//! has two decoupled phases: the desired-index update reacts to utilization
//! (fast ramp-up, debounced ramp-down), and the apply phase enforces the
//! thermal cap plus upward and downward slew-rate limits before the outer
//! layer writes the chosen frequencies to the actuator files.  Times are
//! milliseconds on a monotonic clock; frequencies are the plain integers the
//! hardware tables use (kHz for CPU clusters, Hz for the GPU).

use vstd::prelude::*;
use crate::tempzone::{TempZone, spec_reduction_percent};

verus! {

/// A frequency table is non-decreasing from lowest to highest.
pub open spec fn freqs_sorted(s: Seq<u64>) -> bool {
    forall|i: int, j: int| 0 <= i <= j < s.len() ==> s[i] <= s[j]
}

/// Saturating product of two machine words.
pub open spec fn sat_mul_u64(a: u64, b: u64) -> u64 {
    if a * b > u64::MAX {
        u64::MAX
    } else {
        (a * b) as u64
    }
}

/// Greatest index of `s` whose entry is at most `cap`, or 0 when no entry
/// qualifies (or the table is empty).
pub open spec fn spec_clamp_to_table(s: Seq<u64>, cap: u64) -> int
    decreases s.len(),
{
    if s.len() <= 1 {
        0
    } else if s[s.len() - 1] <= cap {
        s.len() - 1
    } else {
        spec_clamp_to_table(s.drop_last(), cap)
    }
}

/// On a sorted, non-empty table, `spec_clamp_to_table` is in range, lands on
/// an entry at most `cap` whenever one exists, and everything above it is
/// strictly greater than `cap`.
pub proof fn lemma_clamp_to_table_properties(s: Seq<u64>, cap: u64)
    requires
        freqs_sorted(s),
        s.len() > 0,
    ensures
        0 <= spec_clamp_to_table(s, cap) < s.len(),
        cap >= s[0] ==> s[spec_clamp_to_table(s, cap)] <= cap,
        cap < s[0] ==> spec_clamp_to_table(s, cap) == 0,
        forall|j: int| spec_clamp_to_table(s, cap) < j < s.len() ==> s[j] > cap,
    decreases s.len(),
{
    if s.len() > 1 && s[s.len() - 1] > cap {
        let p = s.drop_last();
        assert(forall|i: int| 0 <= i < p.len() ==> p[i] == s[i]);
        lemma_clamp_to_table_properties(p, cap);
    }
}

/// Greatest table index whose frequency does not exceed `cap` (binary
/// search); 0 when even the lowest frequency exceeds `cap`, or the table is
/// empty.
pub fn clamp_to_table(freqs: &Vec<u64>, cap: u64) -> (r: usize)
    requires
        freqs_sorted(freqs@),
    ensures
        r as int == spec_clamp_to_table(freqs@, cap),
        freqs@.len() == 0 ==> r == 0,
        freqs@.len() > 0 ==> r < freqs@.len(),
        freqs@.len() > 0 && cap >= freqs@[0] ==> freqs@[r as int] <= cap,
        freqs@.len() > 0 && cap < freqs@[0] ==> r == 0,
        forall|j: int| r < j < freqs@.len() ==> freqs@[j] > cap,
{
    let mut lo: usize = 0;
    let mut hi: usize = freqs.len();
    while lo + 1 < hi
        invariant
            freqs_sorted(freqs@),
            lo <= hi <= freqs@.len(),
            freqs@.len() > 0 ==> lo < hi,
            lo == 0 || freqs@[lo as int] <= cap,
            hi == freqs@.len() || freqs@[hi as int] > cap,
        decreases hi - lo,
    {
        let mid = lo + (hi - lo) / 2;
        if freqs[mid] <= cap {
            lo = mid;
        } else {
            hi = mid;
        }
    }
    proof {
        if freqs@.len() > 0 {
            lemma_clamp_to_table_properties(freqs@, cap);
            if cap >= freqs@[0] {
                assert(freqs@[lo as int] <= cap);
            } else {
                assert(lo == 0);
            }
            let c = spec_clamp_to_table(freqs@, cap);
            if cap >= freqs@[0] {
                if lo < c {
                    assert(freqs@[c] > cap);
                    assert(false);
                }
                if c < lo {
                    assert(freqs@[lo as int] > cap);
                    assert(false);
                }
            }
        }
    }
    lo
}

/// Middle entry of a frequency table (used as the raised "game mode" floor);
/// 0 for an empty table.
pub open spec fn spec_mid_freq(s: Seq<u64>) -> u64 {
    if s.len() == 0 {
        0
    } else {
        s[s.len() as int / 2]
    }
}

/// Frequency near the middle of the table, or 0 when the table is empty.
pub fn mid_freq(freqs: &Vec<u64>) -> (r: u64)
    ensures
        r == spec_mid_freq(freqs@),
{
    if freqs.len() == 0 {
        return 0;
    }
    freqs[freqs.len() / 2]
}

/// Frequencies the apply phase settled on for one tick: the capped maximum
/// and the guarded minimum handed to the actuator layer.
pub struct FreqTargets {
    pub target_idx: usize,
    pub target_freq: u64,
    pub eff_min: u64,
}

/// One independently controlled frequency domain (a CPU cluster or the GPU).
pub struct Domain {
    pub label: &'static str,
    pub freqs: Vec<u64>,
    pub min_freq: u64,
    pub max_freq: u64,
    /// Actuator-cache key of the domain's minimum-frequency file.
    pub min_node: u64,
    /// Actuator-cache key of the domain's maximum-frequency file.
    pub max_node: u64,
    pub base_index: usize,
    pub idx: usize,
    pub last_util: u8,
    pub max_step_up_next_apply: usize,
    pub hold_until_ms: u64,
    pub low_accum_ms: u64,
    pub up_util: u8,
    pub spike_delta2: u8,
    pub spike_delta4: u8,
    pub high_jump2: u8,
    pub high_jump4: u8,
    pub down_util1: u8,
    pub down_util2: u8,
    pub down_after1_ms: u64,
    pub down_after2_ms: u64,
    pub last_applied_idx: usize,
    pub last_applied_freq: u64,
    pub is_gpu: bool,
}

/// Largest single-apply downward step allowed in a zone: 3 in the hottest,
/// 2 in the second hottest, 1 otherwise.
pub open spec fn spec_max_step_down(zone: TempZone) -> int {
    match zone {
        TempZone::Z130 => 3,
        TempZone::Z120 => 2,
        _ => 1,
    }
}

impl Domain {
    /// Structural well-formedness, established by `new` and preserved by
    /// every method.
    pub open spec fn wf(self) -> bool {
        &&& self.freqs@.len() >= 1
        &&& freqs_sorted(self.freqs@)
        &&& self.base_index < self.freqs@.len()
        &&& self.idx < self.freqs@.len()
        &&& self.last_applied_idx < self.freqs@.len()
        &&& 1 <= self.max_step_up_next_apply <= 4
        &&& self.last_applied_freq == self.freqs@[self.last_applied_idx as int]
        &&& self.max_freq == self.freqs@[self.freqs@.len() - 1]
    }

    pub fn new(
        label: &'static str,
        freqs: Vec<u64>,
        min_node: u64,
        max_node: u64,
        base_index: usize,
        is_gpu: bool,
        now_ms: u64,
        up_util: u8,
        spike_delta2: u8,
        spike_delta4: u8,
        high_jump2: u8,
        high_jump4: u8,
        down_util1: u8,
        down_util2: u8,
        down_after1_ms: u64,
        down_after2_ms: u64,
    ) -> (d: Domain)
        requires
            freqs@.len() >= 1,
            freqs_sorted(freqs@),
            base_index < freqs@.len(),
        ensures
            d.wf(),
            d.freqs@ == freqs@,
            d.min_freq == freqs@[0],
            d.max_freq == freqs@[freqs@.len() - 1],
            d.min_node == min_node,
            d.max_node == max_node,
            d.base_index == base_index,
            d.idx == base_index,
            d.last_util == 0,
            d.max_step_up_next_apply == 1,
            d.hold_until_ms == now_ms,
            d.low_accum_ms == 0,
            d.up_util == up_util,
            d.spike_delta2 == spike_delta2,
            d.spike_delta4 == spike_delta4,
            d.high_jump2 == high_jump2,
            d.high_jump4 == high_jump4,
            d.down_util1 == down_util1,
            d.down_util2 == down_util2,
            d.down_after1_ms == down_after1_ms,
            d.down_after2_ms == down_after2_ms,
            d.last_applied_idx == base_index,
            d.last_applied_freq == freqs@[base_index as int],
            d.is_gpu == is_gpu,
            d.label == label,
    {
        let min_freq = freqs[0];
        let max_freq = freqs[freqs.len() - 1];
        let last_applied_freq = freqs[base_index];
        Domain {
            label,
            freqs,
            min_freq,
            max_freq,
            min_node,
            max_node,
            base_index,
            idx: base_index,
            last_util: 0,
            max_step_up_next_apply: 1,
            hold_until_ms: now_ms,
            low_accum_ms: 0,
            up_util,
            spike_delta2,
            spike_delta4,
            high_jump2,
            high_jump4,
            down_util1,
            down_util2,
            down_after1_ms,
            down_after2_ms,
            last_applied_idx: base_index,
            last_applied_freq,
            is_gpu,
        }
    }

    /// Jump magnitude chosen by the ramp-up rule for this utilization
    /// sample: 4 on very high load or a sharp spike, 2 on high load or a
    /// moderate spike, 1 above the plain up threshold, 0 otherwise.
    pub open spec fn spec_jump_up(self, util: u8) -> int {
        let delta: int = if util > self.last_util {
            util - self.last_util
        } else {
            0
        };
        if util >= self.high_jump4 || delta >= self.spike_delta4 {
            4
        } else if util >= self.high_jump2 || delta >= self.spike_delta2 {
            2
        } else if util >= self.up_util {
            1
        } else {
            0
        }
    }

    /// Ramp-up half of the desired-index update: a positive jump below the
    /// table top raises the desired index (clamped to the top), records the
    /// jump as the permitted up-step for the next apply, opens the 800 ms
    /// hold window and clears the low-utilization accumulator; otherwise the
    /// permitted up-step falls back to 1.
    pub open spec fn spec_up_phase(self, util: u8, now_ms: u64) -> Domain {
        let jump = self.spec_jump_up(util);
        if jump > 0 && self.idx + 1 < self.freqs@.len() {
            let new_idx: usize = if self.idx + jump >= self.freqs@.len() {
                (self.freqs@.len() - 1) as usize
            } else {
                (self.idx + jump) as usize
            };
            Domain {
                last_util: util,
                idx: new_idx,
                max_step_up_next_apply: jump as usize,
                hold_until_ms: now_ms.saturating_add(800),
                low_accum_ms: 0,
                ..self
            }
        } else {
            Domain { last_util: util, max_step_up_next_apply: 1, ..self }
        }
    }

    /// Ramp-down half of the desired-index update.  Only once the hold
    /// window has passed: low utilization accumulates elapsed time and, at
    /// the configured duration, steps the desired index down one (never
    /// below the base index); utilization above both down thresholds resets
    /// the accumulator.
    pub open spec fn spec_down_phase(self, util: u8, now_ms: u64, dt_ms: u64) -> Domain {
        if now_ms >= self.hold_until_ms {
            if util <= self.down_util2 {
                let acc = self.low_accum_ms.saturating_add(dt_ms);
                if acc >= self.down_after2_ms {
                    Domain {
                        low_accum_ms: 0,
                        idx: if self.idx > self.base_index {
                            (self.idx - 1) as usize
                        } else {
                            self.idx
                        },
                        ..self
                    }
                } else {
                    Domain { low_accum_ms: acc, ..self }
                }
            } else if util <= self.down_util1 {
                let acc = self.low_accum_ms.saturating_add(dt_ms);
                if acc >= self.down_after1_ms {
                    Domain {
                        low_accum_ms: 0,
                        idx: if self.idx > self.base_index {
                            (self.idx - 1) as usize
                        } else {
                            self.idx
                        },
                        ..self
                    }
                } else {
                    Domain { low_accum_ms: acc, ..self }
                }
            } else {
                Domain { low_accum_ms: 0, ..self }
            }
        } else {
            self
        }
    }

    /// Full desired-index update for one tick: ramp-up phase, then ramp-down
    /// phase.
    pub open spec fn spec_desired_update(self, util: u8, now_ms: u64, dt_ms: u64) -> Domain {
        self.spec_up_phase(util, now_ms).spec_down_phase(util, now_ms, dt_ms)
    }

    /// Desired-index update (inputs: utilization 0-100, monotonic now,
    /// elapsed time since the previous tick).  Returns whether the desired
    /// index changed.
    pub fn desired_step_update(&mut self, util: u8, now_ms: u64, dt_ms: u64) -> (changed: bool)
        requires
            old(self).wf(),
        ensures
            final(self).wf(),
            *final(self) == old(self).spec_desired_update(util, now_ms, dt_ms),
            changed == (final(self).idx != old(self).idx),
    {
        let old_idx = self.idx;

        let delta = if util > self.last_util {
            util - self.last_util
        } else {
            0
        };
        self.last_util = util;

        let mut jump_up: usize = 0;
        if util >= self.high_jump4 || delta >= self.spike_delta4 {
            jump_up = 4;
        } else if util >= self.high_jump2 || delta >= self.spike_delta2 {
            jump_up = 2;
        } else if util >= self.up_util {
            jump_up = 1;
        }

        let n = self.freqs.len();
        if jump_up > 0 && self.idx + 1 < n {
            let top = n - 1;
            let new_idx = if top - self.idx <= jump_up {
                top
            } else {
                self.idx + jump_up
            };
            if new_idx != self.idx {
                self.idx = new_idx;
                self.max_step_up_next_apply = jump_up;
                self.hold_until_ms = now_ms.saturating_add(800);
            }
            self.low_accum_ms = 0;
        } else {
            self.max_step_up_next_apply = 1;
        }

        if now_ms >= self.hold_until_ms {
            if util <= self.down_util2 {
                self.low_accum_ms = self.low_accum_ms.saturating_add(dt_ms);
                if self.low_accum_ms >= self.down_after2_ms {
                    self.low_accum_ms = 0;
                    if self.idx > self.base_index {
                        self.idx = self.idx - 1;
                    }
                }
            } else if util <= self.down_util1 {
                self.low_accum_ms = self.low_accum_ms.saturating_add(dt_ms);
                if self.low_accum_ms >= self.down_after1_ms {
                    self.low_accum_ms = 0;
                    if self.idx > self.base_index {
                        self.idx = self.idx - 1;
                    }
                }
            } else {
                self.low_accum_ms = 0;
            }
        }

        self.idx != old_idx
    }

    /// Thermal frequency cap for a zone: the table maximum, reduced by the
    /// zone's percentage (saturating product, then division by 100).
    pub open spec fn spec_thermal_cap(self, zone: TempZone) -> u64 {
        let red = spec_reduction_percent(zone);
        if red == 0 {
            self.max_freq
        } else {
            let keep = (100 - red) as u64;
            ((sat_mul_u64(self.max_freq, keep) as int) / 100) as u64
        }
    }

    /// Table index the apply phase settles on: the desired frequency capped
    /// thermally, clamped to the table, then limited to at most the
    /// permitted up-step above and the zone's maximum drop below the last
    /// applied index.
    pub open spec fn spec_apply_target(self, zone: TempZone) -> int {
        let cap_freq = self.freqs@[self.idx as int];
        let thermal = self.spec_thermal_cap(zone);
        let cap: u64 = if cap_freq <= thermal {
            cap_freq
        } else {
            thermal
        };
        let computed = spec_clamp_to_table(self.freqs@, cap);
        let up_limit: int = if self.max_step_up_next_apply >= 1 {
            self.max_step_up_next_apply as int
        } else {
            1
        };
        let t1: int = if computed > self.last_applied_idx + up_limit {
            self.last_applied_idx + up_limit
        } else {
            computed
        };
        let max_down = spec_max_step_down(zone);
        let min_allowed: int = if self.last_applied_idx >= max_down {
            self.last_applied_idx - max_down
        } else {
            0
        };
        if t1 + 1 <= self.last_applied_idx && t1 < min_allowed {
            min_allowed
        } else {
            t1
        }
    }

    /// Slew law: whatever the utilization history left in the domain, the
    /// index one apply settles on stays within the permitted up-step above
    /// and the zone's maximum drop below the last applied index.
    pub proof fn lemma_apply_target_within_slew(self, zone: TempZone)
        requires
            self.wf(),
        ensures
            self.spec_apply_target(zone) <= self.last_applied_idx + (
            if self.max_step_up_next_apply >= 1 {
                self.max_step_up_next_apply as int
            } else {
                1int
            }),
            self.spec_apply_target(zone) + spec_max_step_down(zone) >= self.last_applied_idx,
            0 <= self.spec_apply_target(zone) < self.freqs@.len(),
    {
        let cap_freq = self.freqs@[self.idx as int];
        let thermal = self.spec_thermal_cap(zone);
        let cap: u64 = if cap_freq <= thermal {
            cap_freq
        } else {
            thermal
        };
        lemma_clamp_to_table_properties(self.freqs@, cap);
    }

    fn max_step_down_for_zone(zone: TempZone) -> (r: usize)
        ensures
            r as int == spec_max_step_down(zone),
    {
        match zone {
            TempZone::Z130 => 3,
            TempZone::Z120 => 2,
            _ => 1,
        }
    }

    /// Apply phase: pick the frequencies to actuate for this tick under the
    /// thermal cap and both slew limits, and consume the permitted up-step.
    /// The returned targets go to the actuator layer; `commit_applied`
    /// records them once the writes have gone through.
    ///
    /// The applied index never moves more than the permitted up-step above,
    /// nor more than the zone's maximum drop below, the last applied index.
    pub fn apply(&mut self, zone: TempZone) -> (t: FreqTargets)
        requires
            old(self).wf(),
        ensures
            final(self).wf(),
            *final(self) == (Domain { max_step_up_next_apply: 1, ..*old(self) }),
            t.target_idx as int == old(self).spec_apply_target(zone),
            t.target_idx < old(self).freqs@.len(),
            t.target_freq == old(self).freqs@[t.target_idx as int],
            t.eff_min == if old(self).min_freq <= t.target_freq {
                old(self).min_freq
            } else {
                t.target_freq
            },
            t.target_idx
                <= old(self).last_applied_idx + if old(self).max_step_up_next_apply >= 1 {
                old(self).max_step_up_next_apply as int
            } else {
                1int
            },
            t.target_idx + spec_max_step_down(zone) >= old(self).last_applied_idx,
    {
        let reduction = zone.reduction_percent();
        let thermal_cap = if reduction == 0 {
            self.max_freq
        } else {
            let keep = (100 - reduction) as u64;
            let prod = match self.max_freq.checked_mul(keep) {
                Some(v) => v,
                None => u64::MAX,
            };
            prod / 100
        };

        let desired_freq = self.freqs[self.idx];
        let cap = if desired_freq <= thermal_cap {
            desired_freq
        } else {
            thermal_cap
        };
        let computed_idx = clamp_to_table(&self.freqs, cap);
        let mut target_idx = computed_idx;

        let up_limit = if self.max_step_up_next_apply >= 1 {
            self.max_step_up_next_apply
        } else {
            1
        };
        if target_idx > self.last_applied_idx && target_idx - self.last_applied_idx > up_limit {
            target_idx = self.last_applied_idx + up_limit;
        }
        self.max_step_up_next_apply = 1;

        if target_idx < self.last_applied_idx {
            let max_down = Self::max_step_down_for_zone(zone);
            let min_allowed = self.last_applied_idx.saturating_sub(max_down);
            if target_idx < min_allowed {
                target_idx = min_allowed;
            }
        }

        let target_freq = self.freqs[target_idx];
        let eff_min = if self.min_freq <= target_freq {
            self.min_freq
        } else {
            target_freq
        };

        FreqTargets { target_idx, target_freq, eff_min }
    }

    /// Record the outcome of one apply once the actuator writes have been
    /// performed.  Returns whether a state-change event is due: the applied
    /// index or frequency differs from the previous apply, or a forced
    /// re-check actually rewrote the maximum node.
    pub fn commit_applied(&mut self, t: FreqTargets, wrote_max: bool, force_check: bool) -> (changed:
        bool)
        requires
            old(self).wf(),
            t.target_idx < old(self).freqs@.len(),
            t.target_freq == old(self).freqs@[t.target_idx as int],
        ensures
            final(self).wf(),
            changed == (t.target_idx != old(self).last_applied_idx || t.target_freq != old(
                self,
            ).last_applied_freq || (force_check && wrote_max)),
            changed ==> *final(self) == (Domain {
                last_applied_idx: t.target_idx,
                last_applied_freq: t.target_freq,
                ..*old(self)
            }),
            !changed ==> *final(self) == *old(self),
    {
        if t.target_idx != self.last_applied_idx || t.target_freq != self.last_applied_freq || (
        force_check && wrote_max) {
            self.last_applied_idx = t.target_idx;
            self.last_applied_freq = t.target_freq;
            true
        } else {
            false
        }
    }

    /// Raise the domain's floor to the table midpoint on game-mode entry, or
    /// restore the table minimum on exit.  Nothing else changes.
    pub fn set_game_floor(&mut self, game_on: bool)
        requires
            old(self).wf(),
        ensures
            final(self).wf(),
            *final(self) == (Domain {
                min_freq: if game_on {
                    spec_mid_freq(old(self).freqs@)
                } else {
                    old(self).freqs@[0]
                },
                ..*old(self)
            }),
    {
        if game_on {
            self.min_freq = mid_freq(&self.freqs);
        } else {
            self.min_freq = self.freqs[0];
        }
    }

    /// Drop the desired index back to the resting base index (used on idle
    /// entry).  Nothing else changes.
    pub fn reset_to_base(&mut self)
        requires
            old(self).wf(),
        ensures
            final(self).wf(),
            *final(self) == (Domain { idx: old(self).base_index, ..*old(self) }),
    {
        self.idx = self.base_index;
    }
}

} // verus!
