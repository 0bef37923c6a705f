//! User configuration model: LED settings, notification behaviour and the
//! Normal/Gaming profiles, with the normalization the daemon applies after
//! loading.
//!
//! Serialization of this model lives outside the crate; the types here are
//! the plain values the control logic reads.

use vstd::prelude::*;
use vstd::string::StringExecFns;

verus! {

#[derive(Clone, Copy, Debug, PartialEq, Eq, Structural)]
pub enum NotificationsStopKind {
    UntilScreenOn,
    ForSeconds,
}

#[derive(Clone, Copy, Debug, PartialEq, Eq, Structural)]
pub struct StopConditionWrapper {
    pub kind: NotificationsStopKind,
}

#[derive(Clone, Copy, Debug, PartialEq, Eq, Structural)]
pub enum ExternalLedMode {
    Sound,
    Static,
    Breath,
    Blink,
    Sparkle,
    Flow,
}

#[derive(Clone, Copy, Debug, PartialEq, Eq, Structural)]
pub enum ExternalLedColor {
    Multi,
    Red,
    Yellow,
    Blue,
    Green,
    Cyan,
    White,
    Purple,
    Pink,
    Orange,
}

#[derive(Clone, Copy, Debug, PartialEq, Eq, Structural)]
pub struct ExternalLedSetting {
    pub mode: ExternalLedMode,
    pub color: ExternalLedColor,
}

impl Default for ExternalLedSetting {
    fn default() -> (r: Self)
        ensures
            r == (ExternalLedSetting { mode: ExternalLedMode::Static, color: ExternalLedColor::White }),
    {
        ExternalLedSetting { mode: ExternalLedMode::Static, color: ExternalLedColor::White }
    }
}

#[derive(Clone, Copy, Debug, PartialEq, Eq, Structural)]
pub enum FanLedMode {
    Off,
    Flow,
    Breath,
    Blink,
    Static,
}

#[derive(Clone, Copy, Debug, PartialEq, Eq, Structural)]
pub enum FanLedColor {
    Rose,
    Yellow,
    Green,
    Blue,
    Cyan,
    Purple,
    Orange,
    Mixed1,
    Mixed2,
    Mixed3,
    Mixed4,
    Mixed5,
    Mixed6,
    Mixed7,
}

#[derive(Clone, Copy, Debug, PartialEq, Eq, Structural)]
pub struct FanLedSetting {
    pub mode: FanLedMode,
    pub color: FanLedColor,
}

impl Default for FanLedSetting {
    fn default() -> (r: Self)
        ensures
            r == (FanLedSetting { mode: FanLedMode::Static, color: FanLedColor::Mixed7 }),
    {
        FanLedSetting { mode: FanLedMode::Static, color: FanLedColor::Mixed7 }
    }
}

#[derive(Clone, Copy, Debug, PartialEq, Eq, Structural)]
pub struct FanLedDefaults {
    pub default_mode: FanLedMode,
    pub default_color: FanLedColor,
}

impl Default for FanLedDefaults {
    fn default() -> (r: Self)
        ensures
            r == (FanLedDefaults {
                default_mode: FanLedMode::Static,
                default_color: FanLedColor::Mixed7,
            }),
    {
        FanLedDefaults { default_mode: FanLedMode::Static, default_color: FanLedColor::Mixed7 }
    }
}

#[derive(Clone, Copy, Debug, PartialEq, Eq, Structural)]
pub struct ChargingConfig {
    pub enabled: bool,
    /// Fan LED override while charging is effective; `None` leaves the LEDs
    /// alone.
    pub fan_led: Option<FanLedSetting>,
    /// External LED override while charging is effective.
    pub external_led: Option<ExternalLedSetting>,
}

impl Default for ChargingConfig {
    fn default() -> (r: Self)
        ensures
            r == (ChargingConfig { enabled: true, fan_led: None, external_led: None }),
    {
        ChargingConfig { enabled: true, fan_led: None, external_led: None }
    }
}

#[derive(Clone, Copy, Debug, PartialEq, Eq, Structural)]
pub struct NotificationsConfig {
    pub enabled: bool,
    pub stop_condition: StopConditionWrapper,
    pub for_seconds: u64,
    pub external_led: ExternalLedSetting,
}

impl Default for NotificationsConfig {
    fn default() -> (r: Self)
        ensures
            r == (NotificationsConfig {
                enabled: true,
                stop_condition: StopConditionWrapper { kind: NotificationsStopKind::UntilScreenOn },
                for_seconds: 10,
                external_led: ExternalLedSetting {
                    mode: ExternalLedMode::Blink,
                    color: ExternalLedColor::Blue,
                },
            }),
    {
        NotificationsConfig {
            enabled: true,
            stop_condition: StopConditionWrapper { kind: NotificationsStopKind::UntilScreenOn },
            for_seconds: 10,
            external_led: ExternalLedSetting {
                mode: ExternalLedMode::Blink,
                color: ExternalLedColor::Blue,
            },
        }
    }
}

#[derive(Clone, Copy, Debug, PartialEq, Eq, Structural)]
pub enum ProfileType {
    Normal,
    Gaming,
    Custom,
}

#[derive(Debug)]
pub struct ProfileConfig {
    pub name: String,
    pub profile_type: ProfileType,
    pub priority: i32,
    pub enabled: bool,
    pub fan_led: Option<FanLedSetting>,
    pub external_led: Option<ExternalLedSetting>,
}

/// The compiled-in Normal profile: enabled, priority 1, fan LEDs off.
pub open spec fn is_normal_default(p: ProfileConfig) -> bool {
    &&& p.name@ == "Normal"@
    &&& p.profile_type == ProfileType::Normal
    &&& p.priority == 1
    &&& p.enabled
    &&& p.fan_led == Some(FanLedSetting { mode: FanLedMode::Off, color: FanLedColor::Mixed7 })
    &&& p.external_led is None
}

/// The compiled-in Gaming profile: enabled, priority 10, breathing rose fan
/// LEDs.
pub open spec fn is_gaming_default(p: ProfileConfig) -> bool {
    &&& p.name@ == "Gaming"@
    &&& p.profile_type == ProfileType::Gaming
    &&& p.priority == 10
    &&& p.enabled
    &&& p.fan_led == Some(FanLedSetting { mode: FanLedMode::Breath, color: FanLedColor::Rose })
    &&& p.external_led is None
}

impl ProfileConfig {
    pub fn normal_default() -> (r: ProfileConfig)
        ensures
            is_normal_default(r),
    {
        ProfileConfig {
            name: String::from_str("Normal"),
            profile_type: ProfileType::Normal,
            priority: 1,
            enabled: true,
            fan_led: Some(FanLedSetting { mode: FanLedMode::Off, color: FanLedColor::Mixed7 }),
            external_led: None,
        }
    }

    pub fn gaming_default() -> (r: ProfileConfig)
        ensures
            is_gaming_default(r),
    {
        ProfileConfig {
            name: String::from_str("Gaming"),
            profile_type: ProfileType::Gaming,
            priority: 10,
            enabled: true,
            fan_led: Some(FanLedSetting { mode: FanLedMode::Breath, color: FanLedColor::Rose }),
            external_led: None,
        }
    }
}

/// External LED modes the firmware really supports; anything else falls
/// back to steady.
pub open spec fn spec_norm_ext_mode(m: ExternalLedMode) -> ExternalLedMode {
    match m {
        ExternalLedMode::Static | ExternalLedMode::Breath | ExternalLedMode::Blink => m,
        _ => ExternalLedMode::Static,
    }
}

/// Every fan LED mode is supported; the normalization keeps it.
pub open spec fn spec_norm_fan_mode(m: FanLedMode) -> FanLedMode {
    m
}

pub open spec fn spec_norm_ext_opt(o: Option<ExternalLedSetting>) -> Option<ExternalLedSetting> {
    match o {
        Some(s) => Some(ExternalLedSetting { mode: spec_norm_ext_mode(s.mode), ..s }),
        None => None,
    }
}

pub open spec fn spec_norm_fan_opt(o: Option<FanLedSetting>) -> Option<FanLedSetting> {
    match o {
        Some(s) => Some(FanLedSetting { mode: spec_norm_fan_mode(s.mode), ..s }),
        None => None,
    }
}

/// Normalize an external LED mode to the supported subset.
pub fn normalize_external_mode(m: ExternalLedMode) -> (r: ExternalLedMode)
    ensures
        r == spec_norm_ext_mode(m),
{
    match m {
        ExternalLedMode::Static | ExternalLedMode::Breath | ExternalLedMode::Blink => m,
        _ => ExternalLedMode::Static,
    }
}

/// Normalize a fan LED mode (every mode is supported).
pub fn normalize_fan_mode(m: FanLedMode) -> (r: FanLedMode)
    ensures
        r == spec_norm_fan_mode(m),
{
    m
}

fn normalize_ext_opt(o: Option<ExternalLedSetting>) -> (r: Option<ExternalLedSetting>)
    ensures
        r == spec_norm_ext_opt(o),
{
    match o {
        Some(s) => Some(
            ExternalLedSetting { mode: normalize_external_mode(s.mode), color: s.color },
        ),
        None => None,
    }
}

fn normalize_fan_opt(o: Option<FanLedSetting>) -> (r: Option<FanLedSetting>)
    ensures
        r == spec_norm_fan_opt(o),
{
    match o {
        Some(s) => Some(FanLedSetting { mode: normalize_fan_mode(s.mode), color: s.color }),
        None => None,
    }
}

pub open spec fn spec_has_type(ps: Seq<ProfileConfig>, t: ProfileType) -> bool {
    exists|i: int| 0 <= i < ps.len() && ps[i].profile_type == t
}

/// `p` with its LED modes normalized and everything else untouched.
pub open spec fn spec_norm_profile(p: ProfileConfig) -> ProfileConfig {
    ProfileConfig {
        fan_led: spec_norm_fan_opt(p.fan_led),
        external_led: spec_norm_ext_opt(p.external_led),
        ..p
    }
}

#[derive(Debug)]
pub struct UserConfig {
    /// Static API token local clients use; generated and persisted outside
    /// this crate when empty.
    pub api_token: String,
    pub charging: ChargingConfig,
    pub notifications: NotificationsConfig,
    pub fan_led: FanLedDefaults,
    pub profiles: Vec<ProfileConfig>,
}

impl UserConfig {
    /// Repair a loaded configuration: make sure one Normal and one Gaming
    /// profile exist (appending the compiled-in defaults), and normalize
    /// every LED mode to the firmware-supported subset.  Never rejects a
    /// configuration.
    pub fn validate_and_normalize(&mut self) -> (r: Result<(), String>)
        ensures
            r is Ok,
            final(self).api_token == old(self).api_token,
            final(self).fan_led == old(self).fan_led,
            final(self).charging == (ChargingConfig {
                fan_led: spec_norm_fan_opt(old(self).charging.fan_led),
                external_led: spec_norm_ext_opt(old(self).charging.external_led),
                ..old(self).charging
            }),
            final(self).notifications == (NotificationsConfig {
                external_led: ExternalLedSetting {
                    mode: spec_norm_ext_mode(old(self).notifications.external_led.mode),
                    ..old(self).notifications.external_led
                },
                ..old(self).notifications
            }),
            final(self).profiles@.len() == old(self).profiles@.len() + (if spec_has_type(
                old(self).profiles@,
                ProfileType::Normal,
            ) {
                0int
            } else {
                1int
            }) + (if spec_has_type(old(self).profiles@, ProfileType::Gaming) {
                0int
            } else {
                1int
            }),
            forall|i: int|
                0 <= i < old(self).profiles@.len() ==> final(self).profiles@[i]
                    == spec_norm_profile(old(self).profiles@[i]),
            !spec_has_type(old(self).profiles@, ProfileType::Normal) ==> is_normal_default(
                final(self).profiles@[old(self).profiles@.len() as int],
            ),
            !spec_has_type(old(self).profiles@, ProfileType::Gaming) ==> is_gaming_default(
                final(self).profiles@[final(self).profiles@.len() - 1],
            ),
    {
        let n0 = self.profiles.len();
        let mut has_normal = false;
        let mut has_gaming = false;
        let mut i: usize = 0;
        while i < n0
            invariant
                i <= n0 == self.profiles@.len(),
                *self == *old(self),
                has_normal == spec_has_type(self.profiles@.subrange(0, i as int), ProfileType::Normal),
                has_gaming == spec_has_type(self.profiles@.subrange(0, i as int), ProfileType::Gaming),
            decreases n0 - i,
        {
            proof {
                assert(self.profiles@.subrange(0, i + 1).drop_last() =~= self.profiles@.subrange(
                    0,
                    i as int,
                ));
                assert(self.profiles@.subrange(0, i + 1)[i as int] == self.profiles@[i as int]);
                assert(forall|j: int|
                    0 <= j < i + 1 ==> self.profiles@.subrange(0, i + 1)[j] == self.profiles@[j]);
            }
            if self.profiles[i].profile_type == ProfileType::Normal {
                has_normal = true;
            }
            if self.profiles[i].profile_type == ProfileType::Gaming {
                has_gaming = true;
            }
            proof {
                if has_normal && !spec_has_type(self.profiles@.subrange(0, i + 1), ProfileType::Normal) {
                    assert(false);
                }
            }
            i = i + 1;
        }
        proof {
            assert(self.profiles@.subrange(0, n0 as int) =~= self.profiles@);
        }

        if !has_normal {
            self.profiles.push(ProfileConfig::normal_default());
        }
        if !has_gaming {
            self.profiles.push(ProfileConfig::gaming_default());
        }

        let cf = self.charging.fan_led;
        self.charging.fan_led = normalize_fan_opt(cf);
        let ce = self.charging.external_led;
        self.charging.external_led = normalize_ext_opt(ce);
        let nm = self.notifications.external_led.mode;
        self.notifications.external_led.mode = normalize_external_mode(nm);

        let ghost gps = self.profiles@;
        let total = self.profiles.len();
        let mut k: usize = 0;
        while k < total
            invariant
                k <= total == self.profiles@.len(),
                gps.len() == total,
                forall|j: int| 0 <= j < k ==> self.profiles@[j] == spec_norm_profile(gps[j]),
                forall|j: int| k <= j < total ==> self.profiles@[j] == gps[j],
                self.api_token == old(self).api_token,
                self.fan_led == old(self).fan_led,
                self.charging == (ChargingConfig {
                    fan_led: spec_norm_fan_opt(old(self).charging.fan_led),
                    external_led: spec_norm_ext_opt(old(self).charging.external_led),
                    ..old(self).charging
                }),
                self.notifications == (NotificationsConfig {
                    external_led: ExternalLedSetting {
                        mode: spec_norm_ext_mode(old(self).notifications.external_led.mode),
                        ..old(self).notifications.external_led
                    },
                    ..old(self).notifications
                }),
            decreases total - k,
        {
            let fl = self.profiles[k].fan_led;
            self.profiles[k].fan_led = normalize_fan_opt(fl);
            let el = self.profiles[k].external_led;
            self.profiles[k].external_led = normalize_ext_opt(el);
            k = k + 1;
        }
        Ok(())
    }
}

impl Default for UserConfig {
    fn default() -> (r: Self)
        ensures
            r.api_token@ == Seq::<char>::empty(),
            r.charging == (ChargingConfig { enabled: true, fan_led: None, external_led: None }),
            r.notifications == (NotificationsConfig {
                enabled: true,
                stop_condition: StopConditionWrapper { kind: NotificationsStopKind::UntilScreenOn },
                for_seconds: 10,
                external_led: ExternalLedSetting {
                    mode: ExternalLedMode::Blink,
                    color: ExternalLedColor::Blue,
                },
            }),
            r.fan_led == (FanLedDefaults {
                default_mode: FanLedMode::Static,
                default_color: FanLedColor::Mixed7,
            }),
            r.profiles@.len() == 2,
            is_normal_default(r.profiles@[0]),
            is_gaming_default(r.profiles@[1]),
    {
        let mut profiles: Vec<ProfileConfig> = Vec::new();
        profiles.push(ProfileConfig::normal_default());
        profiles.push(ProfileConfig::gaming_default());
        UserConfig {
            api_token: String::new(),
            charging: ChargingConfig::default(),
            notifications: NotificationsConfig::default(),
            fan_led: FanLedDefaults::default(),
            profiles,
        }
    }
}

} // verus!
