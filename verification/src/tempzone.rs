//! Thermal-zone classification with hysteresis.
//!
//! Temperatures are millidegrees Celsius.  A zone may be entered upward by
//! any number of levels in a single step (temperature spikes), but falls at
//! most one level per step, and only once the temperature has dropped at
//! least `HYSTERESIS_MC` below the zone's lower threshold.

use vstd::prelude::*;

verus! {

/// Discrete thermal band driving a percentage frequency reduction.
#[derive(Clone, Copy, Debug, PartialEq, Eq, Structural)]
pub enum TempZone {
    Cool,
    Z100,
    Z110,
    Z120,
    Z130,
}

pub const T100_MC: i32 = 100_000;
pub const T110_MC: i32 = 110_000;
pub const T120_MC: i32 = 120_000;
pub const T130_MC: i32 = 130_000;
pub const HYSTERESIS_MC: i32 = 2_000;

/// Height of a zone in the ladder: Cool is 0, Z130 is 4.
pub open spec fn zone_level(z: TempZone) -> nat {
    match z {
        TempZone::Cool => 0,
        TempZone::Z100 => 1,
        TempZone::Z110 => 2,
        TempZone::Z120 => 3,
        TempZone::Z130 => 4,
    }
}

/// Lower temperature threshold of a zone (the temperature at or above which
/// the zone is entered from below).  Cool has no threshold and maps to 0.
pub open spec fn zone_floor_mc(z: TempZone) -> int {
    match z {
        TempZone::Cool => 0,
        TempZone::Z100 => T100_MC as int,
        TempZone::Z110 => T110_MC as int,
        TempZone::Z120 => T120_MC as int,
        TempZone::Z130 => T130_MC as int,
    }
}

/// Frequency-reduction percentage attached to each zone.
pub open spec fn spec_reduction_percent(z: TempZone) -> u32 {
    match z {
        TempZone::Cool => 0,
        TempZone::Z100 => 10,
        TempZone::Z110 => 15,
        TempZone::Z120 => 25,
        TempZone::Z130 => 40,
    }
}

/// One classification step: from the previous zone and the current
/// temperature to the new zone.  Rising crosses any number of thresholds at
/// once; falling goes down one level and only below the previous zone's
/// threshold minus the hysteresis band.
pub open spec fn spec_zone_step(temp_mc: int, prev: TempZone) -> TempZone {
    match prev {
        TempZone::Cool => {
            if temp_mc >= T130_MC { TempZone::Z130 }
            else if temp_mc >= T120_MC { TempZone::Z120 }
            else if temp_mc >= T110_MC { TempZone::Z110 }
            else if temp_mc >= T100_MC { TempZone::Z100 }
            else { TempZone::Cool }
        },
        TempZone::Z100 => {
            if temp_mc >= T130_MC { TempZone::Z130 }
            else if temp_mc >= T120_MC { TempZone::Z120 }
            else if temp_mc >= T110_MC { TempZone::Z110 }
            else if temp_mc < T100_MC - HYSTERESIS_MC { TempZone::Cool }
            else { TempZone::Z100 }
        },
        TempZone::Z110 => {
            if temp_mc >= T130_MC { TempZone::Z130 }
            else if temp_mc >= T120_MC { TempZone::Z120 }
            else if temp_mc < T110_MC - HYSTERESIS_MC { TempZone::Z100 }
            else { TempZone::Z110 }
        },
        TempZone::Z120 => {
            if temp_mc >= T130_MC { TempZone::Z130 }
            else if temp_mc < T120_MC - HYSTERESIS_MC { TempZone::Z110 }
            else { TempZone::Z120 }
        },
        TempZone::Z130 => {
            if temp_mc < T130_MC - HYSTERESIS_MC { TempZone::Z120 }
            else { TempZone::Z130 }
        },
    }
}

impl TempZone {
    /// Percentage by which the domain's maximum frequency is reduced while
    /// in this zone.
    pub fn reduction_percent(self) -> (r: u32)
        ensures
            r == spec_reduction_percent(self),
    {
        match self {
            TempZone::Cool => 0,
            TempZone::Z100 => 10,
            TempZone::Z110 => 15,
            TempZone::Z120 => 25,
            TempZone::Z130 => 40,
        }
    }
}

/// Classify the current temperature given the previous zone, applying the
/// hysteresis rule.  A pure function of its two arguments.
pub fn zone_with_hysteresis(temp_mc: i32, prev: TempZone) -> (z: TempZone)
    ensures
        z == spec_zone_step(temp_mc as int, prev),
{
    match prev {
        TempZone::Cool => {
            if temp_mc >= T130_MC { TempZone::Z130 }
            else if temp_mc >= T120_MC { TempZone::Z120 }
            else if temp_mc >= T110_MC { TempZone::Z110 }
            else if temp_mc >= T100_MC { TempZone::Z100 }
            else { TempZone::Cool }
        },
        TempZone::Z100 => {
            if temp_mc >= T130_MC { TempZone::Z130 }
            else if temp_mc >= T120_MC { TempZone::Z120 }
            else if temp_mc >= T110_MC { TempZone::Z110 }
            else if temp_mc < T100_MC - HYSTERESIS_MC { TempZone::Cool }
            else { TempZone::Z100 }
        },
        TempZone::Z110 => {
            if temp_mc >= T130_MC { TempZone::Z130 }
            else if temp_mc >= T120_MC { TempZone::Z120 }
            else if temp_mc < T110_MC - HYSTERESIS_MC { TempZone::Z100 }
            else { TempZone::Z110 }
        },
        TempZone::Z120 => {
            if temp_mc >= T130_MC { TempZone::Z130 }
            else if temp_mc < T120_MC - HYSTERESIS_MC { TempZone::Z110 }
            else { TempZone::Z120 }
        },
        TempZone::Z130 => {
            if temp_mc < T130_MC - HYSTERESIS_MC { TempZone::Z120 }
            else { TempZone::Z130 }
        },
    }
}

/// One classification step never falls by more than one level, whatever the
/// temperature and previous zone.
pub proof fn lemma_zone_falls_at_most_one_level(temp_mc: int, prev: TempZone)
    ensures
        zone_level(spec_zone_step(temp_mc, prev)) + 1 >= zone_level(prev),
{
}

/// A zone is only left downward once the temperature is strictly below the
/// zone's own lower threshold minus the hysteresis band.
pub proof fn lemma_zone_fall_needs_hysteresis(temp_mc: int, prev: TempZone)
    ensures
        zone_level(spec_zone_step(temp_mc, prev)) < zone_level(prev)
            ==> temp_mc < zone_floor_mc(prev) - HYSTERESIS_MC,
{
}

} // verus!
