//! LED effect encoding and the composition state machine.
//!
//! The fan ring and the external face share one hardware `effect` register,
//! so the two desired effects are composed in a fixed order; a notification
//! override temporarily owns the external face.  This module computes the
//! register codes and tracks desired/applied state; the outer layer writes
//! the codes (with the settle delay the firmware needs) and reports back.

use vstd::prelude::*;
use vstd::string::StringExecFns;
use crate::fmt::{hex2, hex_short, spec_hex2, spec_hex_short};
use crate::user_config::{
    ExternalLedColor, ExternalLedMode, ExternalLedSetting, FanLedColor, FanLedMode, FanLedSetting,
};

verus! {

/// Register base value of an external mode; unsupported modes fall back to
/// steady.
pub open spec fn spec_external_mode_base(m: ExternalLedMode) -> u64 {
    match m {
        ExternalLedMode::Static => 96,
        ExternalLedMode::Breath => 112,
        ExternalLedMode::Blink => 128,
        _ => 96,
    }
}

pub fn external_mode_base(m: ExternalLedMode) -> (r: u64)
    ensures
        r == spec_external_mode_base(m),
{
    match m {
        ExternalLedMode::Static => 96,
        ExternalLedMode::Breath => 112,
        ExternalLedMode::Blink => 128,
        _ => 96,
    }
}

/// Palette slot of an external color; the palette depends on the mode, and
/// colors a mode lacks fall back to the nearest slot.
pub open spec fn spec_external_color_idx(mode: ExternalLedMode, c: ExternalLedColor) -> u64 {
    let m = match mode {
        ExternalLedMode::Static | ExternalLedMode::Breath | ExternalLedMode::Blink => mode,
        _ => ExternalLedMode::Static,
    };
    match m {
        ExternalLedMode::Static => match c {
            ExternalLedColor::Multi | ExternalLedColor::Red => 0,
            ExternalLedColor::Purple => 1,
            ExternalLedColor::White => 2,
            ExternalLedColor::Green => 3,
            ExternalLedColor::Blue => 4,
            ExternalLedColor::Cyan => 5,
            ExternalLedColor::Pink => 6,
            ExternalLedColor::Yellow => 7,
            ExternalLedColor::Orange => 0,
        },
        ExternalLedMode::Breath => match c {
            ExternalLedColor::Multi | ExternalLedColor::Purple => 0,
            ExternalLedColor::Red => 1,
            ExternalLedColor::White => 2,
            ExternalLedColor::Green => 3,
            ExternalLedColor::Blue => 4,
            ExternalLedColor::Cyan => 5,
            ExternalLedColor::Pink => 6,
            ExternalLedColor::Yellow => 7,
            ExternalLedColor::Orange => 1,
        },
        _ => match c {
            ExternalLedColor::Multi | ExternalLedColor::Orange => 0,
            ExternalLedColor::Pink => 1,
            ExternalLedColor::White => 2,
            ExternalLedColor::Green => 3,
            ExternalLedColor::Blue => 4,
            ExternalLedColor::Cyan => 5,
            ExternalLedColor::Purple => 6,
            ExternalLedColor::Yellow => 7,
            ExternalLedColor::Red => 1,
        },
    }
}

pub fn external_color_idx(mode: ExternalLedMode, c: ExternalLedColor) -> (r: u64)
    ensures
        r == spec_external_color_idx(mode, c),
{
    let m = match mode {
        ExternalLedMode::Static | ExternalLedMode::Breath | ExternalLedMode::Blink => mode,
        _ => ExternalLedMode::Static,
    };
    match m {
        ExternalLedMode::Static => match c {
            ExternalLedColor::Multi | ExternalLedColor::Red => 0,
            ExternalLedColor::Purple => 1,
            ExternalLedColor::White => 2,
            ExternalLedColor::Green => 3,
            ExternalLedColor::Blue => 4,
            ExternalLedColor::Cyan => 5,
            ExternalLedColor::Pink => 6,
            ExternalLedColor::Yellow => 7,
            ExternalLedColor::Orange => 0,
        },
        ExternalLedMode::Breath => match c {
            ExternalLedColor::Multi | ExternalLedColor::Purple => 0,
            ExternalLedColor::Red => 1,
            ExternalLedColor::White => 2,
            ExternalLedColor::Green => 3,
            ExternalLedColor::Blue => 4,
            ExternalLedColor::Cyan => 5,
            ExternalLedColor::Pink => 6,
            ExternalLedColor::Yellow => 7,
            ExternalLedColor::Orange => 1,
        },
        _ => match c {
            ExternalLedColor::Multi | ExternalLedColor::Orange => 0,
            ExternalLedColor::Pink => 1,
            ExternalLedColor::White => 2,
            ExternalLedColor::Green => 3,
            ExternalLedColor::Blue => 4,
            ExternalLedColor::Cyan => 5,
            ExternalLedColor::Purple => 6,
            ExternalLedColor::Yellow => 7,
            ExternalLedColor::Red => 1,
        },
    }
}

/// Register code of an external effect: two lowercase hex digits of mode
/// base plus palette slot.
pub open spec fn spec_external_code(s: ExternalLedSetting) -> Seq<char> {
    spec_hex2(spec_external_mode_base(s.mode) + spec_external_color_idx(s.mode, s.color))
}

/// Encode an external effect for the `effect` register.
pub fn external_code(setting: &ExternalLedSetting) -> (r: String)
    ensures
        r@ == spec_external_code(*setting),
{
    let v = external_mode_base(setting.mode) + external_color_idx(setting.mode, setting.color);
    hex2(v as u8)
}

/// Color nibble of a fan effect.
pub open spec fn spec_fan_color_nibble(c: FanLedColor) -> u8 {
    match c {
        FanLedColor::Rose => 0x6,
        FanLedColor::Yellow => 0x2,
        FanLedColor::Green => 0x3,
        FanLedColor::Blue => 0x4,
        FanLedColor::Cyan => 0x5,
        FanLedColor::Purple => 0x1,
        FanLedColor::Orange => 0x7,
        FanLedColor::Mixed1 => 0x8,
        FanLedColor::Mixed2 => 0x9,
        FanLedColor::Mixed3 => 0xA,
        FanLedColor::Mixed4 => 0xB,
        FanLedColor::Mixed5 => 0xC,
        FanLedColor::Mixed6 => 0xD,
        FanLedColor::Mixed7 => 0xF,
    }
}

pub fn fan_color_nibble(c: FanLedColor) -> (r: u8)
    ensures
        r == spec_fan_color_nibble(c),
{
    match c {
        FanLedColor::Rose => 0x6,
        FanLedColor::Yellow => 0x2,
        FanLedColor::Green => 0x3,
        FanLedColor::Blue => 0x4,
        FanLedColor::Cyan => 0x5,
        FanLedColor::Purple => 0x1,
        FanLedColor::Orange => 0x7,
        FanLedColor::Mixed1 => 0x8,
        FanLedColor::Mixed2 => 0x9,
        FanLedColor::Mixed3 => 0xA,
        FanLedColor::Mixed4 => 0xB,
        FanLedColor::Mixed5 => 0xC,
        FanLedColor::Mixed6 => 0xD,
        FanLedColor::Mixed7 => 0xF,
    }
}

/// Register base of a fan mode; steady mixed palettes use a different base
/// than steady solid colors.
pub open spec fn spec_fan_base(m: FanLedMode, c: FanLedColor) -> u8 {
    match m {
        FanLedMode::Off => 0x00,
        FanLedMode::Blink => 0x20,
        FanLedMode::Breath => 0x30,
        FanLedMode::Flow => 0x40,
        FanLedMode::Static => {
            if spec_fan_color_nibble(c) >= 0x8 {
                0x90
            } else {
                0xA0
            }
        },
    }
}

pub fn fan_base(m: FanLedMode, c: FanLedColor) -> (r: u8)
    ensures
        r == spec_fan_base(m, c),
{
    match m {
        FanLedMode::Off => 0x00,
        FanLedMode::Blink => 0x20,
        FanLedMode::Breath => 0x30,
        FanLedMode::Flow => 0x40,
        FanLedMode::Static => {
            match c {
                FanLedColor::Mixed1 | FanLedColor::Mixed2 | FanLedColor::Mixed3
                    | FanLedColor::Mixed4 | FanLedColor::Mixed5 | FanLedColor::Mixed6
                    | FanLedColor::Mixed7 => 0x90,
                _ => 0xA0,
            }
        },
    }
}

/// Register code of a fan effect: the literal `2` turns the ring off, any
/// other effect is base plus nibble in unpadded lowercase hex.
pub open spec fn spec_fan_code(s: FanLedSetting) -> Seq<char> {
    if s.mode == FanLedMode::Off {
        seq!['2']
    } else {
        spec_hex_short(spec_fan_base(s.mode, s.color) + spec_fan_color_nibble(s.color))
    }
}

/// Encode a fan effect for the `effect` register.
pub fn fan_code(setting: &FanLedSetting) -> (r: String)
    ensures
        r@ == spec_fan_code(*setting),
{
    if setting.mode == FanLedMode::Off {
        let r = String::from_str("2");
        proof {
            reveal_strlit("2");
            assert(("2")@ =~= seq!['2']);
        }
        return r;
    }
    let base = fan_base(setting.mode, setting.color);
    let n = fan_color_nibble(setting.color);
    let v = (base as u16) + (n as u16);
    hex_short(v)
}

/// An optional fan effect counts as on unless absent or explicitly off.
pub open spec fn spec_fan_enabled(s: Option<FanLedSetting>) -> bool {
    match s {
        Some(x) => x.mode != FanLedMode::Off,
        None => false,
    }
}

pub fn fan_enabled(setting: &Option<FanLedSetting>) -> (r: bool)
    ensures
        r == spec_fan_enabled(*setting),
{
    match setting {
        Some(s) => match s.mode {
            FanLedMode::Off => false,
            _ => true,
        },
        None => false,
    }
}

pub fn external_enabled(setting: &Option<ExternalLedSetting>) -> (r: bool)
    ensures
        r == (setting is Some),
{
    setting.is_some()
}

/// One composed write plan for the shared `effect` register: both codes
/// and the order.  With the fan enabled the external code goes first and
/// the fan code last; otherwise the fan-off code goes first so that it
/// cannot cancel the external effect.
pub struct LedPlan {
    pub fan_on: bool,
    pub ext_on: bool,
    pub fan_code: String,
    pub ext_code: String,
    /// Whether the external code is written before the fan code.
    pub ext_first: bool,
}

/// Compose the two desired effects into a write plan.
pub fn compose_plan(fan: &Option<FanLedSetting>, ext: &Option<ExternalLedSetting>) -> (r: LedPlan)
    ensures
        r.fan_on == spec_fan_enabled(*fan),
        r.ext_on == (ext is Some),
        r.fan_code@ == match *fan {
            Some(s) => if s.mode != FanLedMode::Off {
                spec_fan_code(s)
            } else {
                seq!['2']
            },
            None => seq!['2'],
        },
        r.ext_code@ == match *ext {
            Some(s) => spec_external_code(s),
            None => seq!['0', '0'],
        },
        r.ext_first == r.fan_on,
{
    let fan_on = fan_enabled(fan);
    let ext_on = external_enabled(ext);
    let fan_code_s = match fan {
        Some(s) => {
            if fan_on {
                fan_code(s)
            } else {
                let r = String::from_str("2");
                proof {
                    reveal_strlit("2");
                    assert(("2")@ =~= seq!['2']);
                }
                r
            }
        },
        None => {
            let r = String::from_str("2");
            proof {
                reveal_strlit("2");
                assert(("2")@ =~= seq!['2']);
            }
            r
        },
    };
    let ext_code_s = match ext {
        Some(s) => external_code(s),
        None => {
            let r = String::from_str("00");
            proof {
                reveal_strlit("00");
                assert(("00")@ =~= seq!['0', '0']);
            }
            r
        },
    };
    proof {
        if spec_fan_enabled(*fan) {
            assert(fan_code_s@ == spec_fan_code(fan->0));
        }
    }
    LedPlan { fan_on, ext_on, fan_code: fan_code_s, ext_code: ext_code_s, ext_first: fan_on }
}

/// Desired and applied LED state: the base effects chosen by profiles, the
/// last effects actually written, and the notification override that owns
/// the external face while present.
pub struct Leds {
    pub base_fan_desired: Option<FanLedSetting>,
    pub base_external_desired: Option<ExternalLedSetting>,
    pub last_fan_applied: Option<FanLedSetting>,
    pub last_external_applied: Option<ExternalLedSetting>,
    pub external_override: Option<ExternalLedSetting>,
}

/// What a desired-state change asks the outer layer to do.
#[derive(Clone, Copy, Debug, PartialEq, Eq, Structural)]
pub enum LedUpdate {
    /// Nothing changed; no write needed.
    Unchanged,
    /// Recorded, but a notification override owns the output right now.
    Deferred,
    /// Apply the composed state now.
    Apply,
}

fn opt_fan_eq(a: &Option<FanLedSetting>, b: &Option<FanLedSetting>) -> (r: bool)
    ensures
        r == (a == b),
{
    match (a, b) {
        (Some(x), Some(y)) => x.mode == y.mode && x.color == y.color,
        (None, None) => true,
        _ => false,
    }
}

fn opt_ext_eq(a: &Option<ExternalLedSetting>, b: &Option<ExternalLedSetting>) -> (r: bool)
    ensures
        r == (a == b),
{
    match (a, b) {
        (Some(x), Some(y)) => x.mode == y.mode && x.color == y.color,
        (None, None) => true,
        _ => false,
    }
}

impl Leds {
    /// Start with nothing desired, nothing applied, no override.
    pub fn new() -> (r: Leds)
        ensures
            r.base_fan_desired is None,
            r.base_external_desired is None,
            r.last_fan_applied is None,
            r.last_external_applied is None,
            r.external_override is None,
    {
        Leds {
            base_fan_desired: None,
            base_external_desired: None,
            last_fan_applied: None,
            last_external_applied: None,
            external_override: None,
        }
    }

    /// The pair of effects a composed apply would write now: the base fan
    /// effect, and the override (when active) or base external effect.
    pub fn snapshot_to_apply(&self) -> (r: (Option<FanLedSetting>, Option<ExternalLedSetting>))
        ensures
            r.0 == self.base_fan_desired,
            r.1 == if self.external_override is Some {
                self.external_override
            } else {
                self.base_external_desired
            },
    {
        let ext = match self.external_override {
            Some(o) => Some(o),
            None => self.base_external_desired,
        };
        (self.base_fan_desired, ext)
    }

    /// Record what a successful composed apply wrote: a disabled fan effect
    /// is recorded as nothing applied.
    pub fn record_applied(&mut self, fan: Option<FanLedSetting>, ext: Option<ExternalLedSetting>)
        ensures
            *final(self) == (Leds {
                last_fan_applied: if spec_fan_enabled(fan) {
                    fan
                } else {
                    None
                },
                last_external_applied: ext,
                ..*old(self)
            }),
    {
        self.last_fan_applied = if fan_enabled(&fan) {
            fan
        } else {
            None
        };
        self.last_external_applied = ext;
    }

    /// Change the base fan effect.  Returns whether the composed state must
    /// be applied (it must unless the setting is unchanged).
    pub fn set_fan_desired(&mut self, setting: Option<FanLedSetting>) -> (r: LedUpdate)
        ensures
            setting == old(self).base_fan_desired ==> r == LedUpdate::Unchanged && *final(self)
                == *old(self),
            setting != old(self).base_fan_desired ==> r == LedUpdate::Apply && *final(self) == (
            Leds { base_fan_desired: setting, ..*old(self) }),
    {
        if opt_fan_eq(&self.base_fan_desired, &setting) {
            return LedUpdate::Unchanged;
        }
        self.base_fan_desired = setting;
        LedUpdate::Apply
    }

    /// Change the base external effect.  While a notification override is
    /// active the new base is only remembered; otherwise a changed setting
    /// asks for an apply.
    pub fn set_external_desired(&mut self, setting: Option<ExternalLedSetting>) -> (r: LedUpdate)
        ensures
            setting == old(self).base_external_desired ==> r == LedUpdate::Unchanged && *final(self)
                == *old(self),
            setting != old(self).base_external_desired ==> *final(self) == (Leds {
                base_external_desired: setting,
                ..*old(self)
            }) && r == if old(self).external_override is Some {
                LedUpdate::Deferred
            } else {
                LedUpdate::Apply
            },
    {
        if opt_ext_eq(&self.base_external_desired, &setting) {
            return LedUpdate::Unchanged;
        }
        self.base_external_desired = setting;
        if self.external_override.is_some() {
            LedUpdate::Deferred
        } else {
            LedUpdate::Apply
        }
    }

    /// Start a notification override of the external face.
    pub fn external_start(&mut self, setting: ExternalLedSetting)
        ensures
            *final(self) == (Leds { external_override: Some(setting), ..*old(self) }),
    {
        self.external_override = Some(setting);
    }

    /// End the notification override; the base effects take over again.
    pub fn external_stop(&mut self)
        ensures
            *final(self) == (Leds { external_override: None, ..*old(self) }),
    {
        self.external_override = None;
    }

    pub fn get_fan_state(&self) -> (r: (Option<FanLedSetting>, Option<FanLedSetting>))
        ensures
            r.0 == self.base_fan_desired,
            r.1 == self.last_fan_applied,
    {
        (self.base_fan_desired, self.last_fan_applied)
    }

    pub fn get_external_state(&self) -> (r: (
        Option<ExternalLedSetting>,
        Option<ExternalLedSetting>,
    ))
        ensures
            r.0 == self.base_external_desired,
            r.1 == self.last_external_applied,
    {
        (self.base_external_desired, self.last_external_applied)
    }
}

} // verus!
