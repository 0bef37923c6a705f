//! Fan level controller: temperature curves and smoothed level changes.
//!
//! The fan level is 0 (off) to 5 (full).  A target level is chosen from the
//! chip temperature (or, while charging, also the battery temperature), and
//! the actual level moves toward it one step per tick.  The outer layer
//! writes the enable and level files when the level changed.

use vstd::prelude::*;

verus! {

/// Baseline fan level while a game runs.
pub const GAME_FAN_BASE: u8 = 2;

/// Chip-temperature fan curve.
pub open spec fn spec_level_from_soc_temp(temp_mc: int) -> u8 {
    if temp_mc < 50_000 {
        0
    } else if temp_mc < 60_000 {
        1
    } else if temp_mc < 70_000 {
        2
    } else if temp_mc < 80_000 {
        3
    } else if temp_mc < 90_000 {
        4
    } else {
        5
    }
}

/// Battery-temperature fan curve, used while charging.
pub open spec fn spec_level_from_battery_temp(temp_mc: int) -> u8 {
    if temp_mc < 15_000 {
        0
    } else if temp_mc < 25_000 {
        1
    } else if temp_mc < 30_000 {
        2
    } else if temp_mc < 35_000 {
        3
    } else if temp_mc < 42_000 {
        4
    } else {
        5
    }
}

/// Target level for one tick: while charging the hotter of the two curves;
/// with the screen on the chip curve; otherwise off.  Game mode (with the
/// screen on or charging) raises the floor to the game baseline.  A chip
/// temperature below zero marks an unknown reading and counts as cool.
pub open spec fn spec_fan_target(
    soc_temp_mc: int,
    batt_temp_mc: Option<i32>,
    screen_on: bool,
    charging: bool,
    game_mode: bool,
) -> u8 {
    let soc_level: u8 = if soc_temp_mc >= 0 {
        spec_level_from_soc_temp(soc_temp_mc)
    } else {
        0
    };
    let base: u8 = if charging {
        let batt_level: u8 = match batt_temp_mc {
            Some(t) => spec_level_from_battery_temp(t as int),
            None => 0,
        };
        if soc_level >= batt_level {
            soc_level
        } else {
            batt_level
        }
    } else if screen_on {
        soc_level
    } else {
        0
    };
    if game_mode && (screen_on || charging) && base < GAME_FAN_BASE {
        GAME_FAN_BASE
    } else {
        base
    }
}

/// Fan controller state: the level last commanded.
pub struct Fan {
    pub level: u8,
}

impl Fan {
    /// The level is always one of the six hardware steps.
    pub open spec fn wf(self) -> bool {
        self.level <= 5
    }

    /// Start with the fan off.
    pub fn new() -> (f: Fan)
        ensures
            f.wf(),
            f.level == 0,
    {
        Fan { level: 0 }
    }

    pub fn level_from_soc_temp(temp_mc: i32) -> (r: u8)
        ensures
            r == spec_level_from_soc_temp(temp_mc as int),
    {
        if temp_mc < 50_000 {
            0
        } else if temp_mc < 60_000 {
            1
        } else if temp_mc < 70_000 {
            2
        } else if temp_mc < 80_000 {
            3
        } else if temp_mc < 90_000 {
            4
        } else {
            5
        }
    }

    pub fn level_from_battery_temp(temp_mc: i32) -> (r: u8)
        ensures
            r == spec_level_from_battery_temp(temp_mc as int),
    {
        if temp_mc < 15_000 {
            0
        } else if temp_mc < 25_000 {
            1
        } else if temp_mc < 30_000 {
            2
        } else if temp_mc < 35_000 {
            3
        } else if temp_mc < 42_000 {
            4
        } else {
            5
        }
    }

    /// Jump straight to `level` (clamped to the hardware range), skipping
    /// the smoothing; used when game mode sets its baseline at once.
    pub fn force_level(&mut self, level: u8)
        ensures
            final(self).wf(),
            final(self).level == if level <= 5 {
                level
            } else {
                5
            },
    {
        self.level = if level <= 5 {
            level
        } else {
            5
        };
    }

    /// One tick of fan control: pick the target for the current conditions
    /// and move one step toward it.  Returns whether the level changed (and
    /// the files must be rewritten).
    pub fn apply(
        &mut self,
        soc_temp_mc: i32,
        batt_temp_mc: Option<i32>,
        screen_on: bool,
        charging: bool,
        game_mode: bool,
    ) -> (changed: bool)
        requires
            old(self).wf(),
        ensures
            final(self).wf(),
            ({
                let target = spec_fan_target(
                    soc_temp_mc as int,
                    batt_temp_mc,
                    screen_on,
                    charging,
                    game_mode,
                );
                let next: int = if target > old(self).level {
                    old(self).level + 1
                } else if target < old(self).level {
                    old(self).level - 1
                } else {
                    old(self).level as int
                };
                final(self).level == next && changed == (next != old(self).level)
            }),
    {
        let soc_level = if soc_temp_mc >= 0 {
            Self::level_from_soc_temp(soc_temp_mc)
        } else {
            0
        };

        let mut target = if charging {
            let batt_level = match batt_temp_mc {
                Some(t) => Self::level_from_battery_temp(t),
                None => 0,
            };
            if soc_level >= batt_level {
                soc_level
            } else {
                batt_level
            }
        } else if screen_on {
            soc_level
        } else {
            0
        };

        if game_mode && (screen_on || charging) && target < GAME_FAN_BASE {
            target = GAME_FAN_BASE;
        }

        let next = if target > self.level {
            self.level + 1
        } else if target < self.level {
            self.level - 1
        } else {
            self.level
        };

        if next == self.level {
            return false;
        }
        self.level = next;
        true
    }
}

} // verus!
