//! The shared snapshot the control loop publishes and the side threads
//! read: configuration with its revision counter, runtime info, and LED
//! runtime state.  The lock around it lives in the outer layer; this module
//! holds the data and the revision rule.

use vstd::prelude::*;
use crate::profiles::BaseLedDesired;
use crate::user_config::{
    ExternalLedSetting, FanLedSetting, NotificationsStopKind, UserConfig,
};

verus! {

/// LED runtime state as published for observers.  Times are milliseconds
/// on the monotonic clock.
#[derive(Debug)]
pub struct LedRuntimeState {
    pub base_desired: Option<BaseLedDesired>,
    pub base_last_applied: Option<BaseLedDesired>,
    pub fan_desired: Option<FanLedSetting>,
    pub fan_last_applied: Option<FanLedSetting>,
    pub external_active: bool,
    pub external_setting: Option<ExternalLedSetting>,
    pub external_stop_kind: NotificationsStopKind,
    pub external_started_at_ms: Option<u64>,
    pub external_ends_at_ms: Option<u64>,
}

impl Default for LedRuntimeState {
    fn default() -> (r: Self)
        ensures
            r.base_desired is None,
            r.base_last_applied is None,
            r.fan_desired is None,
            r.fan_last_applied is None,
            !r.external_active,
            r.external_setting is None,
            r.external_stop_kind == NotificationsStopKind::UntilScreenOn,
            r.external_started_at_ms is None,
            r.external_ends_at_ms is None,
    {
        LedRuntimeState {
            base_desired: None,
            base_last_applied: None,
            fan_desired: None,
            fan_last_applied: None,
            external_active: false,
            external_setting: None,
            external_stop_kind: NotificationsStopKind::UntilScreenOn,
            external_started_at_ms: None,
            external_ends_at_ms: None,
        }
    }
}

/// Runtime info snapshot for observers: temperatures, zone, modes and the
/// active profile names.
#[derive(Debug)]
pub struct InfoState {
    pub cpu_avg_mc: Option<i32>,
    pub gpu_avg_mc: Option<i32>,
    pub soc_mc: Option<i32>,
    pub batt_mc: Option<i32>,
    pub temp_zone: String,
    pub reduce_percent: u8,
    pub screen_on: bool,
    /// Hardware charging state as detected.
    pub charging: bool,
    /// Configuration switch for charging behaviour.
    pub charging_enabled: bool,
    /// The state the logic uses: charging and enabled.
    pub charging_effective: bool,
    pub game_mode: bool,
    pub idle_mode: bool,
    pub active_profile: String,
    pub led_profile: String,
}

impl Default for InfoState {
    fn default() -> (r: Self)
        ensures
            r.cpu_avg_mc is None,
            r.gpu_avg_mc is None,
            r.soc_mc is None,
            r.batt_mc is None,
            r.temp_zone@ == Seq::<char>::empty(),
            r.reduce_percent == 0,
            r.screen_on,
            !r.charging,
            r.charging_enabled,
            !r.charging_effective,
            !r.game_mode,
            !r.idle_mode,
            r.active_profile@ == Seq::<char>::empty(),
            r.led_profile@ == Seq::<char>::empty(),
    {
        InfoState {
            cpu_avg_mc: None,
            gpu_avg_mc: None,
            soc_mc: None,
            batt_mc: None,
            temp_zone: String::new(),
            reduce_percent: 0,
            screen_on: true,
            charging: false,
            charging_enabled: true,
            charging_effective: false,
            game_mode: false,
            idle_mode: false,
            active_profile: String::new(),
            led_profile: String::new(),
        }
    }
}

/// The one shared snapshot: configuration, a revision counter that moves
/// only forward while the process runs, and the runtime state.
#[derive(Debug)]
pub struct SharedState {
    pub config: UserConfig,
    pub config_rev: u64,
    pub last_config_error: Option<String>,
    pub info: InfoState,
    pub leds: LedRuntimeState,
}

impl SharedState {
    pub fn new(config: UserConfig) -> (r: SharedState)
        ensures
            r.config == config,
            r.config_rev == 0,
            r.last_config_error is None,
    {
        SharedState {
            config,
            config_rev: 0,
            last_config_error: None,
            info: InfoState::default(),
            leds: LedRuntimeState::default(),
        }
    }

    /// Replace the configuration and advance the revision, so a reader
    /// seeing revision N sees the configuration that produced it.  The
    /// counter never moves backward within the life of the process (it
    /// would take centuries of updates to exhaust).
    pub fn install_config(&mut self, config: UserConfig, error: Option<String>)
        requires
            old(self).config_rev < u64::MAX,
        ensures
            *final(self) == (SharedState {
                config,
                config_rev: (old(self).config_rev + 1) as u64,
                last_config_error: error,
                ..*old(self)
            }),
    {
        self.config = config;
        self.config_rev = self.config_rev + 1;
        self.last_config_error = error;
    }
}

} // verus!
