//! Profile resolution and base LED selection.
//!
//! The Normal and Gaming profiles are found by type (or by name, ignoring
//! case, as a fallback), with the compiled-in defaults standing in when a
//! profile is missing.  The base LED effect follows a fixed priority:
//! charging, then gaming, then normal (the latter only with the screen on).

use vstd::prelude::*;
use vstd::string::StringExecFns;
use crate::text::spec_str_eq_nocase;
use crate::user_config::{
    is_gaming_default, is_normal_default, ExternalLedSetting, FanLedSetting, ProfileConfig,
    ProfileType, UserConfig,
};

verus! {

/// What the base LED layer should show: one effect on the fan ring or the
/// external face (the hardware shares one register between them).
#[derive(Clone, Copy, Debug, PartialEq, Eq, Structural)]
pub enum BaseLedDesired {
    Fan(FanLedSetting),
    External(ExternalLedSetting),
}

/// A base LED choice and the profile it came from (for humans).
#[derive(Debug)]
pub struct BaseLedSelection {
    /// `Charging`, `Gaming`, `Normal` or `Off`.
    pub source: String,
    pub desired: Option<BaseLedDesired>,
}

/// A profile counts as a hit when its type matches, or its name equals the
/// fallback name ignoring case.
pub open spec fn spec_profile_matches(p: ProfileConfig, kind: ProfileType, fb: Seq<char>) -> bool {
    p.profile_type == kind || spec_str_eq_nocase(p.name@, fb)
}

/// Index of the first matching profile from position `i` on.
pub open spec fn spec_find_profile(
    ps: Seq<ProfileConfig>,
    kind: ProfileType,
    fb: Seq<char>,
    i: int,
) -> Option<int>
    decreases ps.len() - i,
{
    if i < 0 || i >= ps.len() {
        None
    } else if spec_profile_matches(ps[i], kind, fb) {
        Some(i)
    } else {
        spec_find_profile(ps, kind, fb, i + 1)
    }
}

/// Field-wise agreement of two profiles (the name by content).
pub open spec fn profile_like(a: ProfileConfig, b: ProfileConfig) -> bool {
    &&& a.name@ == b.name@
    &&& a.profile_type == b.profile_type
    &&& a.priority == b.priority
    &&& a.enabled == b.enabled
    &&& a.fan_led == b.fan_led
    &&& a.external_led == b.external_led
}

fn copy_profile(p: &ProfileConfig) -> (r: ProfileConfig)
    ensures
        profile_like(r, *p),
{
    ProfileConfig {
        name: String::from_str(p.name.as_str()),
        profile_type: p.profile_type,
        priority: p.priority,
        enabled: p.enabled,
        fan_led: p.fan_led,
        external_led: p.external_led,
    }
}

pub fn find_profile_idx(ps: &Vec<ProfileConfig>, kind: ProfileType, fallback: &str) -> (r: Option<
    usize,
>)
    ensures
        match r {
            Some(i) => i < ps@.len() && spec_find_profile(ps@, kind, fallback@, 0) == Some(i as int),
            None => spec_find_profile(ps@, kind, fallback@, 0) is None,
        },
{
    let n = ps.len();
    let mut i: usize = 0;
    while i < n
        invariant
            i <= n == ps@.len(),
            spec_find_profile(ps@, kind, fallback@, 0) == spec_find_profile(
                ps@,
                kind,
                fallback@,
                i as int,
            ),
        decreases n - i,
    {
        let hit = ps[i].profile_type == kind || crate::text::str_eq_nocase(
            ps[i].name.as_str(),
            fallback,
        );
        if hit {
            return Some(i);
        }
        i = i + 1;
    }
    None
}

/// The Normal profile of the configuration, or the compiled-in default
/// when none is found.
pub fn get_normal_profile(cfg: &UserConfig) -> (p: ProfileConfig)
    ensures
        match spec_find_profile(cfg.profiles@, ProfileType::Normal, "Normal"@, 0) {
            Some(i) => profile_like(p, cfg.profiles@[i]),
            None => is_normal_default(p),
        },
{
    match find_profile_idx(&cfg.profiles, ProfileType::Normal, "Normal") {
        Some(i) => copy_profile(&cfg.profiles[i]),
        None => ProfileConfig::normal_default(),
    }
}

/// The Gaming profile of the configuration, or the compiled-in default
/// when none is found.
pub fn get_gaming_profile(cfg: &UserConfig) -> (p: ProfileConfig)
    ensures
        match spec_find_profile(cfg.profiles@, ProfileType::Gaming, "Gaming"@, 0) {
            Some(i) => profile_like(p, cfg.profiles@[i]),
            None => is_gaming_default(p),
        },
{
    match find_profile_idx(&cfg.profiles, ProfileType::Gaming, "Gaming") {
        Some(i) => copy_profile(&cfg.profiles[i]),
        None => ProfileConfig::gaming_default(),
    }
}

/// Whether the resolved Gaming profile is enabled (the default is).
pub open spec fn spec_gaming_enabled(cfg: UserConfig) -> bool {
    match spec_find_profile(cfg.profiles@, ProfileType::Gaming, "Gaming"@, 0) {
        Some(i) => cfg.profiles@[i].enabled,
        None => true,
    }
}

/// The profile the governor runs under: Gaming only during game mode with
/// an enabled Gaming profile, else Normal.
pub fn select_active_mode_profile(cfg: &UserConfig, game_mode: bool) -> (p: ProfileConfig)
    ensures
        game_mode && spec_gaming_enabled(*cfg) ==> match spec_find_profile(
            cfg.profiles@,
            ProfileType::Gaming,
            "Gaming"@,
            0,
        ) {
            Some(i) => profile_like(p, cfg.profiles@[i]),
            None => is_gaming_default(p),
        },
        !(game_mode && spec_gaming_enabled(*cfg)) ==> match spec_find_profile(
            cfg.profiles@,
            ProfileType::Normal,
            "Normal"@,
            0,
        ) {
            Some(i) => profile_like(p, cfg.profiles@[i]),
            None => is_normal_default(p),
        },
{
    let g = get_gaming_profile(cfg);
    if game_mode && g.enabled {
        return g;
    }
    get_normal_profile(cfg)
}

/// The external-LED setting the resolved Gaming profile offers.
pub open spec fn spec_gaming_ext(cfg: UserConfig) -> Option<ExternalLedSetting> {
    match spec_find_profile(cfg.profiles@, ProfileType::Gaming, "Gaming"@, 0) {
        Some(i) => cfg.profiles@[i].external_led,
        None => None,
    }
}

/// The fan-LED setting the resolved Gaming profile offers.
pub open spec fn spec_gaming_fan(cfg: UserConfig) -> Option<FanLedSetting> {
    match spec_find_profile(cfg.profiles@, ProfileType::Gaming, "Gaming"@, 0) {
        Some(i) => cfg.profiles@[i].fan_led,
        None => Some(FanLedSetting { mode: crate::user_config::FanLedMode::Breath, color: crate::user_config::FanLedColor::Rose }),
    }
}

pub open spec fn spec_normal_enabled(cfg: UserConfig) -> bool {
    match spec_find_profile(cfg.profiles@, ProfileType::Normal, "Normal"@, 0) {
        Some(i) => cfg.profiles@[i].enabled,
        None => true,
    }
}

pub open spec fn spec_normal_ext(cfg: UserConfig) -> Option<ExternalLedSetting> {
    match spec_find_profile(cfg.profiles@, ProfileType::Normal, "Normal"@, 0) {
        Some(i) => cfg.profiles@[i].external_led,
        None => None,
    }
}

pub open spec fn spec_normal_fan(cfg: UserConfig) -> Option<FanLedSetting> {
    match spec_find_profile(cfg.profiles@, ProfileType::Normal, "Normal"@, 0) {
        Some(i) => cfg.profiles@[i].fan_led,
        None => Some(FanLedSetting { mode: crate::user_config::FanLedMode::Off, color: crate::user_config::FanLedColor::Mixed7 }),
    }
}

/// The base LED effect by fixed priority: a charging override first, then
/// the Gaming profile during game mode, then the Normal profile with the
/// screen on; within a source, an external effect beats a fan effect.
pub open spec fn spec_select_base_led(
    cfg: UserConfig,
    screen_on: bool,
    charging_effective: bool,
    game_mode: bool,
) -> Option<BaseLedDesired> {
    if charging_effective && cfg.charging.external_led is Some {
        Some(BaseLedDesired::External(cfg.charging.external_led->0))
    } else if charging_effective && cfg.charging.fan_led is Some {
        Some(BaseLedDesired::Fan(cfg.charging.fan_led->0))
    } else if game_mode && spec_gaming_enabled(cfg) && spec_gaming_ext(cfg) is Some {
        Some(BaseLedDesired::External(spec_gaming_ext(cfg)->0))
    } else if game_mode && spec_gaming_enabled(cfg) && spec_gaming_fan(cfg) is Some {
        Some(BaseLedDesired::Fan(spec_gaming_fan(cfg)->0))
    } else if spec_normal_enabled(cfg) && screen_on && spec_normal_ext(cfg) is Some {
        Some(BaseLedDesired::External(spec_normal_ext(cfg)->0))
    } else if spec_normal_enabled(cfg) && screen_on && spec_normal_fan(cfg) is Some {
        Some(BaseLedDesired::Fan(spec_normal_fan(cfg)->0))
    } else {
        None
    }
}

/// The source label that goes with [`spec_select_base_led`].
pub open spec fn spec_select_base_source(
    cfg: UserConfig,
    screen_on: bool,
    charging_effective: bool,
    game_mode: bool,
) -> Seq<char> {
    if charging_effective && (cfg.charging.external_led is Some || cfg.charging.fan_led is Some) {
        "Charging"@
    } else if game_mode && spec_gaming_enabled(cfg) && (spec_gaming_ext(cfg) is Some
        || spec_gaming_fan(cfg) is Some) {
        "Gaming"@
    } else if spec_normal_enabled(cfg) && screen_on && (spec_normal_ext(cfg) is Some
        || spec_normal_fan(cfg) is Some) {
        "Normal"@
    } else {
        "Off"@
    }
}

/// Select the base LED effect for the current conditions.
pub fn select_base_led(
    cfg: &UserConfig,
    screen_on: bool,
    charging_effective: bool,
    game_mode: bool,
) -> (r: BaseLedSelection)
    ensures
        r.desired == spec_select_base_led(*cfg, screen_on, charging_effective, game_mode),
        r.source@ == spec_select_base_source(*cfg, screen_on, charging_effective, game_mode),
{
    if charging_effective {
        if let Some(ext) = cfg.charging.external_led {
            return BaseLedSelection {
                source: String::from_str("Charging"),
                desired: Some(BaseLedDesired::External(ext)),
            };
        }
        if let Some(fan) = cfg.charging.fan_led {
            return BaseLedSelection {
                source: String::from_str("Charging"),
                desired: Some(BaseLedDesired::Fan(fan)),
            };
        }
    }

    let g = get_gaming_profile(cfg);
    if game_mode && g.enabled {
        if let Some(ext) = g.external_led {
            return BaseLedSelection {
                source: String::from_str("Gaming"),
                desired: Some(BaseLedDesired::External(ext)),
            };
        }
        if let Some(fan) = g.fan_led {
            return BaseLedSelection {
                source: String::from_str("Gaming"),
                desired: Some(BaseLedDesired::Fan(fan)),
            };
        }
    }

    let n = get_normal_profile(cfg);
    if n.enabled && screen_on {
        if let Some(ext) = n.external_led {
            return BaseLedSelection {
                source: String::from_str("Normal"),
                desired: Some(BaseLedDesired::External(ext)),
            };
        }
        if let Some(fan) = n.fan_led {
            return BaseLedSelection {
                source: String::from_str("Normal"),
                desired: Some(BaseLedDesired::Fan(fan)),
            };
        }
    }

    BaseLedSelection { source: String::from_str("Off"), desired: None }
}

} // verus!
