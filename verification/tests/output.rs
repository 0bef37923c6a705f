use mora_perf::fan::Fan;
use mora_perf::fmt::{build_paths, fmt_c, fmt_hz, fmt_khz, hex2, hex_short, u64_to_string, zone_temp_path};
use mora_perf::power::ChargeProbe;
use mora_perf::screen::{raw_screen_on, ScreenProbe};

#[test]
fn decimal_rendering() {
    assert_eq!(u64_to_string(0), "0");
    assert_eq!(u64_to_string(7), "7");
    assert_eq!(u64_to_string(1_234_567), "1234567");
    assert_eq!(u64_to_string(u64::MAX), "18446744073709551615");
}

#[test]
fn frequency_rendering() {
    assert_eq!(fmt_khz(2_265_600), "2.27GHz");
    assert_eq!(fmt_khz(1_000_000), "1.00GHz");
    assert_eq!(fmt_khz(364_800), "365MHz");
    assert_eq!(fmt_khz(999_499), "999MHz");
    assert_eq!(fmt_hz(916_000_000), "916MHz");
    assert_eq!(fmt_hz(1_000_000_000), "1.00GHz");
    assert_eq!(fmt_hz(834_000_000), "834MHz");
}

#[test]
fn temperature_rendering() {
    assert_eq!(fmt_c(41_234), "41.2C");
    assert_eq!(fmt_c(41_250), "41.3C");
    assert_eq!(fmt_c(-500), "-0.5C");
    assert_eq!(fmt_c(0), "0.0C");
    assert_eq!(fmt_c(100_000), "100.0C");
}

#[test]
fn hex_rendering() {
    assert_eq!(hex2(0x00), "00");
    assert_eq!(hex2(0x67), "67");
    assert_eq!(hex2(0xaf), "af");
    assert_eq!(hex_short(0x2), "2");
    assert_eq!(hex_short(0xa3), "a3");
}

#[test]
fn thermal_zone_paths() {
    assert_eq!(zone_temp_path(10), "/sys/class/thermal/thermal_zone10/temp");
    assert_eq!(zone_temp_path(7), "/sys/class/thermal/thermal_zone7/temp");
    let paths = build_paths(&vec![10, 11, 12], &vec![true, false, true]);
    assert_eq!(
        paths,
        vec![
            "/sys/class/thermal/thermal_zone10/temp".to_string(),
            "/sys/class/thermal/thermal_zone12/temp".to_string(),
        ]
    );
}

#[test]
fn fan_curves() {
    assert_eq!(Fan::level_from_soc_temp(49_999), 0);
    assert_eq!(Fan::level_from_soc_temp(50_000), 1);
    assert_eq!(Fan::level_from_soc_temp(69_000), 2);
    assert_eq!(Fan::level_from_soc_temp(95_000), 5);
    assert_eq!(Fan::level_from_battery_temp(14_000), 0);
    assert_eq!(Fan::level_from_battery_temp(26_000), 2);
    assert_eq!(Fan::level_from_battery_temp(43_000), 5);
}

#[test]
fn fan_moves_one_step_per_tick() {
    let mut f = Fan::new();
    assert_eq!(f.level, 0);
    // Hot chip, screen on: target 5, but the level climbs one per tick.
    assert!(f.apply(95_000, None, true, false, false));
    assert_eq!(f.level, 1);
    f.apply(95_000, None, true, false, false);
    assert_eq!(f.level, 2);
    // Cooled down with the screen off: target 0, down one per tick.
    assert!(f.apply(20_000, None, false, false, false));
    assert_eq!(f.level, 1);
    // No change once the target is reached.
    f.apply(20_000, None, false, false, false);
    assert!(!f.apply(20_000, None, false, false, false));
    assert_eq!(f.level, 0);
}

#[test]
fn fan_game_baseline_and_battery_curve() {
    let mut f = Fan::new();
    // Game mode with the screen on keeps at least level 2 as target.
    f.apply(20_000, None, true, false, true);
    f.apply(20_000, None, true, false, true);
    assert_eq!(f.level, 2);
    f.apply(20_000, None, true, false, true);
    assert_eq!(f.level, 2);
    // While charging, the battery curve can raise the target further.
    f.apply(20_000, Some(43_000), true, true, false);
    assert_eq!(f.level, 3);
    // Unknown chip temperature (negative marker) counts as cool.
    let mut g = Fan::new();
    assert!(!g.apply(-1, None, true, false, false));
    assert_eq!(g.level, 0);
}

#[test]
fn fan_force_level_clamps() {
    let mut f = Fan::new();
    f.force_level(2);
    assert_eq!(f.level, 2);
    f.force_level(9);
    assert_eq!(f.level, 5);
}

#[test]
fn charging_detection() {
    let probe = ChargeProbe { online_count: 2, has_battery_status: true };
    assert!(probe.is_charging(&vec![0, 1], None));
    assert!(!probe.is_charging(&vec![0, 0], None));
    assert!(probe.is_charging(&vec![0, 0], Some("Charging\n")));
    assert!(probe.is_charging(&vec![0, 0], Some("full")));
    assert!(probe.is_charging(&vec![0, 0], Some("CHARGING")));
    assert!(!probe.is_charging(&vec![0, 0], Some("Discharging")));
    assert!(!probe.is_charging(&vec![0, 0], Some("Not charging")));
}

#[test]
fn screen_probe_interpretation() {
    assert!(raw_screen_on(ScreenProbe::FbBlank, Some("0\n")));
    assert!(!raw_screen_on(ScreenProbe::FbBlank, Some("4")));
    assert!(raw_screen_on(ScreenProbe::BacklightBright, Some("128")));
    assert!(!raw_screen_on(ScreenProbe::BacklightBright, Some("0")));
    assert!(raw_screen_on(ScreenProbe::BacklightPower, Some("0")));
    assert!(!raw_screen_on(ScreenProbe::BacklightPower, Some("4")));
    // Unreadable or unparseable probes count as on.
    assert!(raw_screen_on(ScreenProbe::FbBlank, None));
    assert!(raw_screen_on(ScreenProbe::FbBlank, Some("garbage")));
}
