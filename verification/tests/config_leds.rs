use mora_perf::leds::{
    compose_plan, external_code, fan_code, fan_enabled, Leds, LedUpdate,
};
use mora_perf::profiles::{
    get_gaming_profile, get_normal_profile, select_active_mode_profile, select_base_led,
    BaseLedDesired,
};
use mora_perf::state::{LedRuntimeState, SharedState};
use mora_perf::user_config::{
    normalize_external_mode, normalize_fan_mode, ExternalLedColor, ExternalLedMode,
    ExternalLedSetting, FanLedColor, FanLedMode, FanLedSetting, ProfileConfig, ProfileType,
    UserConfig,
};

fn ext(mode: ExternalLedMode, color: ExternalLedColor) -> ExternalLedSetting {
    ExternalLedSetting { mode, color }
}

fn fan(mode: FanLedMode, color: FanLedColor) -> FanLedSetting {
    FanLedSetting { mode, color }
}

#[test]
fn external_codes_match_firmware_table() {
    // Steady red: base 0x60, slot 0.
    assert_eq!(external_code(&ext(ExternalLedMode::Static, ExternalLedColor::Red)), "60");
    // Breathing blue: base 0x70, slot 4.
    assert_eq!(external_code(&ext(ExternalLedMode::Breath, ExternalLedColor::Blue)), "74");
    // Flashing yellow: base 0x80, slot 7.
    assert_eq!(external_code(&ext(ExternalLedMode::Blink, ExternalLedColor::Yellow)), "87");
    // Unsupported mode falls back to steady.
    assert_eq!(external_code(&ext(ExternalLedMode::Sound, ExternalLedColor::White)), "62");
    // Orange is absent from the steady palette and falls back to slot 0.
    assert_eq!(external_code(&ext(ExternalLedMode::Static, ExternalLedColor::Orange)), "60");
}

#[test]
fn fan_codes_match_firmware_table() {
    // Off is the literal 2.
    assert_eq!(fan_code(&fan(FanLedMode::Off, FanLedColor::Rose)), "2");
    // Breathing rose: base 0x30 plus nibble 0x6.
    assert_eq!(fan_code(&fan(FanLedMode::Breath, FanLedColor::Rose)), "36");
    // Steady solid color uses base 0xA0, steady mixed palette 0x90.
    assert_eq!(fan_code(&fan(FanLedMode::Static, FanLedColor::Purple)), "a1");
    assert_eq!(fan_code(&fan(FanLedMode::Static, FanLedColor::Mixed7)), "9f");
    assert_eq!(fan_code(&fan(FanLedMode::Flow, FanLedColor::Cyan)), "45");
}

#[test]
fn compose_orders_shared_register_writes() {
    let p = compose_plan(
        &Some(fan(FanLedMode::Breath, FanLedColor::Rose)),
        &Some(ext(ExternalLedMode::Blink, ExternalLedColor::Blue)),
    );
    assert!(p.fan_on && p.ext_on);
    // Fan enabled: external first, fan last so the fan effect survives.
    assert!(p.ext_first);
    assert_eq!(p.fan_code, "36");
    assert_eq!(p.ext_code, "84");

    let p = compose_plan(&Some(fan(FanLedMode::Off, FanLedColor::Rose)), &None);
    assert!(!p.fan_on && !p.ext_on);
    assert!(!p.ext_first);
    assert_eq!(p.fan_code, "2");
    assert_eq!(p.ext_code, "00");
    assert!(!fan_enabled(&Some(fan(FanLedMode::Off, FanLedColor::Rose))));
}

#[test]
fn led_state_machine_override() {
    let mut l = Leds::new();
    assert_eq!(l.set_fan_desired(Some(fan(FanLedMode::Flow, FanLedColor::Blue))), LedUpdate::Apply);
    // Unchanged setting asks for nothing.
    assert_eq!(
        l.set_fan_desired(Some(fan(FanLedMode::Flow, FanLedColor::Blue))),
        LedUpdate::Unchanged
    );
    assert_eq!(
        l.set_external_desired(Some(ext(ExternalLedMode::Static, ExternalLedColor::Green))),
        LedUpdate::Apply
    );
    // During a notification override the base change is only remembered.
    l.external_start(ext(ExternalLedMode::Blink, ExternalLedColor::Blue));
    assert_eq!(
        l.set_external_desired(Some(ext(ExternalLedMode::Static, ExternalLedColor::White))),
        LedUpdate::Deferred
    );
    // The snapshot shows the override, not the base.
    let (f, e) = l.snapshot_to_apply();
    assert_eq!(f, Some(fan(FanLedMode::Flow, FanLedColor::Blue)));
    assert_eq!(e, Some(ext(ExternalLedMode::Blink, ExternalLedColor::Blue)));
    l.external_stop();
    let (_, e) = l.snapshot_to_apply();
    assert_eq!(e, Some(ext(ExternalLedMode::Static, ExternalLedColor::White)));
}

#[test]
fn record_applied_drops_disabled_fan() {
    let mut l = Leds::new();
    l.record_applied(Some(fan(FanLedMode::Off, FanLedColor::Rose)), None);
    assert_eq!(l.get_fan_state().1, None);
    l.record_applied(Some(fan(FanLedMode::Flow, FanLedColor::Rose)), None);
    assert_eq!(l.get_fan_state().1, Some(fan(FanLedMode::Flow, FanLedColor::Rose)));
}

#[test]
fn normalization_repairs_config() {
    let mut cfg = UserConfig::default();
    cfg.profiles.clear();
    cfg.notifications.external_led.mode = ExternalLedMode::Sparkle;
    cfg.charging.external_led = Some(ext(ExternalLedMode::Flow, ExternalLedColor::Red));
    assert!(cfg.validate_and_normalize().is_ok());
    // Both compiled-in profiles are appended when missing.
    assert_eq!(cfg.profiles.len(), 2);
    assert_eq!(cfg.profiles[0].name, "Normal");
    assert!(matches!(cfg.profiles[0].profile_type, ProfileType::Normal));
    assert_eq!(cfg.profiles[1].name, "Gaming");
    // Unsupported external modes fall back to steady.
    assert!(matches!(cfg.notifications.external_led.mode, ExternalLedMode::Static));
    assert!(matches!(
        cfg.charging.external_led.unwrap().mode,
        ExternalLedMode::Static
    ));
}

#[test]
fn normalization_keeps_existing_profiles() {
    let mut cfg = UserConfig::default();
    cfg.profiles[1].enabled = false;
    cfg.profiles[0].external_led = Some(ext(ExternalLedMode::Sound, ExternalLedColor::Cyan));
    assert!(cfg.validate_and_normalize().is_ok());
    assert_eq!(cfg.profiles.len(), 2);
    assert!(!cfg.profiles[1].enabled);
    assert!(matches!(
        cfg.profiles[0].external_led.unwrap().mode,
        ExternalLedMode::Static
    ));
}

#[test]
fn normalize_mode_helpers() {
    assert!(matches!(
        normalize_external_mode(ExternalLedMode::Breath),
        ExternalLedMode::Breath
    ));
    assert!(matches!(
        normalize_external_mode(ExternalLedMode::Flow),
        ExternalLedMode::Static
    ));
    assert!(matches!(normalize_fan_mode(FanLedMode::Flow), FanLedMode::Flow));
}

#[test]
fn profile_resolution_by_type_and_name() {
    let cfg = UserConfig::default();
    assert!(matches!(get_normal_profile(&cfg).profile_type, ProfileType::Normal));
    assert!(matches!(get_gaming_profile(&cfg).profile_type, ProfileType::Gaming));

    // A renamed profile is still found by its type; a typed-out profile by
    // its case-insensitive name.
    let mut cfg = UserConfig::default();
    cfg.profiles[1].name = "racing".to_string();
    assert_eq!(get_gaming_profile(&cfg).name, "racing");
    cfg.profiles[1].profile_type = ProfileType::Custom;
    cfg.profiles[1].name = "GAMING".to_string();
    assert_eq!(get_gaming_profile(&cfg).name, "GAMING");

    // Missing entirely: the compiled-in default stands in.
    let mut cfg = UserConfig::default();
    cfg.profiles.remove(1);
    let g = get_gaming_profile(&cfg);
    assert_eq!(g.name, "Gaming");
    assert_eq!(g.priority, 10);
}

#[test]
fn active_profile_selection() {
    let cfg = UserConfig::default();
    assert!(matches!(
        select_active_mode_profile(&cfg, false).profile_type,
        ProfileType::Normal
    ));
    assert!(matches!(
        select_active_mode_profile(&cfg, true).profile_type,
        ProfileType::Gaming
    ));
    // A disabled gaming profile never becomes active.
    let mut cfg = UserConfig::default();
    cfg.profiles[1].enabled = false;
    assert!(matches!(
        select_active_mode_profile(&cfg, true).profile_type,
        ProfileType::Normal
    ));
}

#[test]
fn base_led_priority_chain() {
    let mut cfg = UserConfig::default();
    cfg.charging.external_led = Some(ext(ExternalLedMode::Breath, ExternalLedColor::Green));
    // Charging wins when effective.
    let s = select_base_led(&cfg, true, true, true);
    assert_eq!(s.source, "Charging");
    assert_eq!(
        s.desired,
        Some(BaseLedDesired::External(ext(ExternalLedMode::Breath, ExternalLedColor::Green)))
    );
    // Not charging: gaming wins during game mode (default gaming fan effect).
    let s = select_base_led(&cfg, true, false, true);
    assert_eq!(s.source, "Gaming");
    assert_eq!(
        s.desired,
        Some(BaseLedDesired::Fan(fan(FanLedMode::Breath, FanLedColor::Rose)))
    );
    // Neither: the normal profile, only with the screen on.
    let s = select_base_led(&cfg, true, false, false);
    assert_eq!(s.source, "Normal");
    assert_eq!(
        s.desired,
        Some(BaseLedDesired::Fan(fan(FanLedMode::Off, FanLedColor::Mixed7)))
    );
    let s = select_base_led(&cfg, false, false, false);
    assert_eq!(s.source, "Off");
    assert_eq!(s.desired, None);
}

#[test]
fn shared_state_revision_advances() {
    let mut s = SharedState::new(UserConfig::default());
    assert_eq!(s.config_rev, 0);
    s.install_config(UserConfig::default(), None);
    assert_eq!(s.config_rev, 1);
    s.install_config(UserConfig::default(), Some("bad".to_string()));
    assert_eq!(s.config_rev, 2);
    assert_eq!(s.last_config_error.as_deref(), Some("bad"));
    let l = LedRuntimeState::default();
    assert!(!l.external_active);
}
