use mora_perf::actuator::{write_str_if_needed, write_u64_if_needed, ActuatorCache, StrActuatorCache, WriteStep};
use mora_perf::control::{
    force_check_due, idle_qualifying, select_sleep_ms, update_stability, IdleTracker,
    IdleTransition, ScreenFilter,
};
use mora_perf::domain::{clamp_to_table, mid_freq, Domain};
use mora_perf::tempzone::{zone_with_hysteresis, TempZone};

fn test_domain(base_index: usize) -> Domain {
    Domain::new(
        "CPU0",
        vec![100, 200, 300, 400, 500],
        1,
        2,
        base_index,
        false,
        0,
        70,
        20,
        35,
        85,
        95,
        60,
        50,
        6_000,
        3_000,
    )
}

#[test]
fn hysteresis_band_from_z100() {
    // 1999 mC below the threshold is inside the band: stay in Z100.
    assert_eq!(
        zone_with_hysteresis(100_000 - 1999, TempZone::Z100),
        TempZone::Z100
    );
    // 2001 mC below the threshold falls out to Cool.
    assert_eq!(
        zone_with_hysteresis(100_000 - 2001, TempZone::Z100),
        TempZone::Cool
    );
}

#[test]
fn zone_rises_any_number_of_levels() {
    assert_eq!(zone_with_hysteresis(135_000, TempZone::Cool), TempZone::Z130);
    assert_eq!(zone_with_hysteresis(111_000, TempZone::Cool), TempZone::Z110);
    assert_eq!(zone_with_hysteresis(99_999, TempZone::Cool), TempZone::Cool);
}

#[test]
fn zone_falls_one_level_per_step() {
    assert_eq!(zone_with_hysteresis(50_000, TempZone::Z130), TempZone::Z120);
    assert_eq!(zone_with_hysteresis(50_000, TempZone::Z120), TempZone::Z110);
    assert_eq!(zone_with_hysteresis(50_000, TempZone::Z110), TempZone::Z100);
    assert_eq!(zone_with_hysteresis(50_000, TempZone::Z100), TempZone::Cool);
}

#[test]
fn reduction_percent_values() {
    assert_eq!(TempZone::Cool.reduction_percent(), 0);
    assert_eq!(TempZone::Z100.reduction_percent(), 10);
    assert_eq!(TempZone::Z110.reduction_percent(), 15);
    assert_eq!(TempZone::Z120.reduction_percent(), 25);
    assert_eq!(TempZone::Z130.reduction_percent(), 40);
}

#[test]
fn clamp_to_table_greatest_at_most_cap() {
    let t = vec![100u64, 200, 300, 400, 500];
    assert_eq!(clamp_to_table(&t, 300), 2);
    assert_eq!(clamp_to_table(&t, 350), 2);
    assert_eq!(clamp_to_table(&t, 500), 4);
    assert_eq!(clamp_to_table(&t, 1_000), 4);
    // Below the lowest entry the index is 0.
    assert_eq!(clamp_to_table(&t, 99), 0);
    assert_eq!(clamp_to_table(&t, 100), 0);
}

#[test]
fn mid_freq_is_table_middle() {
    assert_eq!(mid_freq(&vec![100u64, 200, 300, 400, 500]), 300);
    assert_eq!(mid_freq(&vec![]), 0);
}

#[test]
fn scenario_high_util_jump_and_apply() {
    // table=[100..500], idx=2; util 96 jumps 4 up to the table top.
    let mut d = test_domain(2);
    let changed = d.desired_step_update(96, 0, 0);
    assert!(changed);
    assert_eq!(d.idx, 4);
    // Applying at once in Cool: permitted up-step 4 allows reaching index 4.
    let t = d.apply(TempZone::Cool);
    assert_eq!(t.target_idx, 4);
    assert_eq!(t.target_freq, 500);
    let ev = d.commit_applied(t, true, false);
    assert!(ev);
}

#[test]
fn scenario_thermal_cap_forces_drop() {
    // Reach last_applied_idx=4 first.
    let mut d = test_domain(2);
    d.desired_step_update(96, 0, 0);
    let t = d.apply(TempZone::Cool);
    d.commit_applied(t, true, false);
    // Z130 reduces 40%: cap 300, computed index 2; drop 4 -> 2 allowed (max drop 3).
    let t = d.apply(TempZone::Z130);
    assert_eq!(t.target_idx, 2);
    assert_eq!(t.target_freq, 300);
}

#[test]
fn scenario_slow_relaxation_steps_one_at_a_time() {
    let mut d = test_domain(0);
    d.desired_step_update(96, 0, 0);
    assert_eq!(d.idx, 4);
    // Hold window (800 ms) blocks relaxation; low utilization accumulates after it.
    let changed = d.desired_step_update(40, 1_000, 1_000);
    assert!(!changed);
    assert_eq!(d.idx, 4);
    d.desired_step_update(40, 2_000, 1_000);
    assert_eq!(d.idx, 4);
    // After down_after_fast (3 s) of accumulated low utilization: exactly one step down.
    let changed = d.desired_step_update(40, 3_000, 1_000);
    assert!(changed);
    assert_eq!(d.idx, 3);
    // The next window again takes 3 s and again steps exactly one.
    d.desired_step_update(40, 4_000, 1_000);
    d.desired_step_update(40, 5_000, 1_000);
    assert_eq!(d.idx, 3);
    d.desired_step_update(40, 6_000, 1_000);
    assert_eq!(d.idx, 2);
}

#[test]
fn relaxation_does_not_fall_below_base() {
    let mut d = test_domain(2);
    for k in 0..20u64 {
        d.desired_step_update(10, 10_000 + k * 1_000, 1_000);
    }
    assert_eq!(d.idx, 2);
}

#[test]
fn hold_window_blocks_relaxation_accrual() {
    let mut d = test_domain(0);
    d.desired_step_update(96, 0, 0);
    // Within the 800 ms window nothing accrues, whatever the utilization.
    d.desired_step_update(10, 200, 200);
    d.desired_step_update(10, 400, 200);
    d.desired_step_update(10, 600, 200);
    assert_eq!(d.idx, 4);
    // Accrual only starts once now >= hold_until.
    d.desired_step_update(10, 800, 200);
    d.desired_step_update(10, 2_000, 1_200);
    d.desired_step_update(10, 3_800, 1_800);
    assert_eq!(d.idx, 3);
}

#[test]
fn game_floor_and_reset_to_base() {
    let mut d = test_domain(1);
    assert_eq!(d.min_freq, 100);
    d.set_game_floor(true);
    assert_eq!(d.min_freq, 300);
    d.set_game_floor(false);
    assert_eq!(d.min_freq, 100);
    d.desired_step_update(96, 0, 0);
    assert_eq!(d.idx, 4);
    d.reset_to_base();
    assert_eq!(d.idx, 1);
}

#[test]
fn effective_min_guards_inverted_bounds() {
    // A raised game floor (300) collides with a hard thermal cap.
    let mut d = test_domain(4);
    d.set_game_floor(true);
    let t1 = d.apply(TempZone::Z130);
    // Thermal cap 300: the min written must not exceed the max written.
    assert!(t1.eff_min <= t1.target_freq);
}

#[test]
fn debounced_write_skips_unchanged_target() {
    let mut cache = ActuatorCache::new();
    cache.set(7, 1_000_000);
    // force=false and an unchanged target: no filesystem write, however often.
    for _ in 0..5 {
        let d = write_u64_if_needed(&cache, 7, 1_000_000, false, true, None);
        assert_eq!(d, WriteStep::Unchanged);
    }
}

#[test]
fn debounced_write_decisions() {
    let mut cache = ActuatorCache::new();
    // Nothing cached yet: write.
    assert_eq!(
        write_u64_if_needed(&cache, 7, 5, false, true, None),
        WriteStep::DoWrite
    );
    cache.set(7, 5);
    // Target changed: write.
    assert_eq!(
        write_u64_if_needed(&cache, 7, 6, false, true, None),
        WriteStep::DoWrite
    );
    // Missing file: silent no-op.
    assert_eq!(
        write_u64_if_needed(&cache, 7, 6, false, false, None),
        WriteStep::Unchanged
    );
    // Forced, file already holds the target: repair the cache only.
    assert_eq!(
        write_u64_if_needed(&cache, 7, 6, true, true, Some(6)),
        WriteStep::CacheRepair
    );
    // Forced, file holds something else: write even though the cache matches.
    assert_eq!(
        write_u64_if_needed(&cache, 7, 5, true, true, Some(9)),
        WriteStep::DoWrite
    );
}

#[test]
fn cache_get_set() {
    let mut cache = ActuatorCache::new();
    assert_eq!(cache.get(1), None);
    cache.set(1, 10);
    cache.set(2, 20);
    cache.set(1, 11);
    assert_eq!(cache.get(1), Some(11));
    assert_eq!(cache.get(2), Some(20));
}

#[test]
fn idle_needs_ten_continuous_seconds() {
    let mut t = IdleTracker::new();
    for _ in 0..9 {
        let (tr, _) = t.step(true, false, false, 1_000);
        assert_eq!(tr, IdleTransition::Stay);
    }
    let (tr, reset) = t.step(true, false, false, 1_000);
    assert_eq!(tr, IdleTransition::Enter);
    assert!(reset);
    // One disqualifying sample exits immediately and zeroes the accumulator.
    let (tr, _) = t.step(false, false, false, 1_000);
    assert_eq!(tr, IdleTransition::Exit);
    assert_eq!(t.accum_ms, 0);
}

#[test]
fn one_disqualifying_sample_resets_accumulator() {
    let mut t = IdleTracker::new();
    for _ in 0..9 {
        t.step(true, false, false, 1_000);
    }
    t.step(false, false, false, 1_000);
    assert_eq!(t.accum_ms, 0);
    // Nine more qualifying seconds are not enough after the reset.
    for _ in 0..9 {
        let (tr, _) = t.step(true, false, false, 1_000);
        assert_eq!(tr, IdleTransition::Stay);
    }
}

#[test]
fn idle_entry_keeps_domains_while_charging_or_gaming() {
    let mut t = IdleTracker::new();
    for _ in 0..10 {
        t.step(true, true, false, 1_000);
    }
    assert!(t.idle_mode);
    // Entered while charging: domains stay where they are.
    let mut t2 = IdleTracker::new();
    for _ in 0..9 {
        t2.step(true, true, false, 1_000);
    }
    let (tr, reset) = t2.step(true, true, false, 1_000);
    assert_eq!(tr, IdleTransition::Enter);
    assert!(!reset);
}

#[test]
fn idle_qualifying_thresholds() {
    assert!(idle_qualifying(false, false, 14, 9));
    assert!(!idle_qualifying(false, false, 15, 9));
    assert!(!idle_qualifying(false, false, 14, 10));
    assert!(!idle_qualifying(true, false, 0, 0));
    assert!(!idle_qualifying(false, true, 0, 0));
}

#[test]
fn screen_filter_needs_two_off_samples() {
    let mut f = ScreenFilter::new();
    assert!(f.sample(true));
    // The first off sample is still reported as on.
    assert!(f.sample(false));
    assert!(!f.sample(false));
    assert!(f.sample(true));
}

#[test]
fn forced_recheck_cadence() {
    assert!(!force_check_due(5_999, 0, false));
    assert!(force_check_due(6_000, 0, false));
    assert!(!force_check_due(17_999, 0, true));
    assert!(force_check_due(18_000, 0, true));
}

#[test]
fn adaptive_sleep_selection() {
    assert_eq!(select_sleep_ms(TempZone::Z130, false, false, true, 0), 450);
    assert_eq!(select_sleep_ms(TempZone::Z120, true, false, false, 0), 450);
    assert_eq!(select_sleep_ms(TempZone::Cool, true, false, false, 0), 6_500);
    // Idle while charging does not slow down to the idle cadence.
    assert_eq!(select_sleep_ms(TempZone::Cool, true, true, false, 0), 1_500);
    assert_eq!(select_sleep_ms(TempZone::Z100, false, false, true, 0), 750);
    assert_eq!(
        select_sleep_ms(TempZone::Cool, false, false, false, 30_000),
        3_000
    );
    assert_eq!(
        select_sleep_ms(TempZone::Cool, false, false, false, 29_999),
        1_500
    );
}

#[test]
fn stability_tracking() {
    assert_eq!(update_stability(5_000, false, 1_000), 6_000);
    assert_eq!(update_stability(5_000, true, 1_000), 0);
}

#[test]
fn applied_index_stays_within_slew_bounds() {
    // Whatever the utilization sequence, each apply moves the applied index
    // at most the permitted up-step upward and max-drop downward.
    let mut d = test_domain(0);
    let utils = [0u8, 96, 10, 96, 96, 0, 50, 100, 0, 0];
    let mut now = 0u64;
    let mut last_applied = 0usize;
    for (k, &u) in utils.iter().enumerate() {
        now += 1_000;
        d.desired_step_update(u, now, 1_000);
        let zone = if k % 3 == 0 { TempZone::Z130 } else { TempZone::Cool };
        let t = d.apply(zone);
        let max_drop = match zone {
            TempZone::Z130 => 3,
            TempZone::Z120 => 2,
            _ => 1,
        };
        assert!(t.target_idx <= last_applied + 4);
        assert!(t.target_idx + max_drop >= last_applied);
        last_applied = t.target_idx;
        d.commit_applied(t, true, false);
    }
}

#[test]
fn debounced_text_write_decisions() {
    let mut cache = StrActuatorCache::new();
    assert_eq!(
        write_str_if_needed(&cache, 1, "performance", false, true, None),
        WriteStep::DoWrite
    );
    cache.set(1, "performance".to_string());
    assert_eq!(
        write_str_if_needed(&cache, 1, "performance", false, true, None),
        WriteStep::Unchanged
    );
    assert_eq!(
        write_str_if_needed(&cache, 1, "walt", false, true, None),
        WriteStep::DoWrite
    );
    // A forced write whose re-read matches after trimming repairs the cache.
    assert_eq!(
        write_str_if_needed(&cache, 1, "walt", true, true, Some("walt\n")),
        WriteStep::CacheRepair
    );
    assert_eq!(
        write_str_if_needed(&cache, 1, "walt", true, true, Some("performance\n")),
        WriteStep::DoWrite
    );
    assert_eq!(
        write_str_if_needed(&cache, 1, "walt", false, false, None),
        WriteStep::Unchanged
    );
}
