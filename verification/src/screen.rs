//! Screen-state reading.
//!
//! One of three sysfs probes tells whether the display is on; the outer
//! layer knows the probe's path and reads it, this module interprets the
//! content.  An unreadable or unparseable probe counts as "screen on".

use vstd::prelude::*;
use vstd::string::StringSliceAdditionalSpecFns;
use crate::text::{spec_parse_i32, spec_trim, read_i32};

verus! {

/// Which display node the device offers.
#[derive(Clone, Copy, Debug, PartialEq, Eq, Structural)]
pub enum ScreenProbe {
    /// Framebuffer blank node: 0 means the screen is on.
    FbBlank,
    /// Backlight brightness node: positive means the screen is on.
    BacklightBright,
    /// Backlight power node: 0 means the screen is on.
    BacklightPower,
}

/// What a probe reading means: the parsed value interpreted per probe
/// kind, an absent or unparseable reading defaulting to "on".
pub open spec fn spec_screen_on(probe: ScreenProbe, content: Option<Seq<u8>>) -> bool {
    match content {
        None => true,
        Some(s) => match spec_parse_i32(spec_trim(s)) {
            None => true,
            Some(v) => match probe {
                ScreenProbe::FbBlank => v == 0,
                ScreenProbe::BacklightBright => v > 0,
                ScreenProbe::BacklightPower => v == 0,
            },
        },
    }
}

pub open spec fn opt_bytes(o: Option<&str>) -> Option<Seq<u8>> {
    match o {
        Some(s) => Some(s.spec_bytes()),
        None => None,
    }
}

/// Interpret one raw probe reading.
pub fn raw_screen_on(probe: ScreenProbe, content: Option<&str>) -> (on: bool)
    ensures
        on == spec_screen_on(probe, opt_bytes(content)),
{
    match content {
        None => true,
        Some(s) => match read_i32(s) {
            None => true,
            Some(v) => match probe {
                ScreenProbe::FbBlank => v == 0,
                ScreenProbe::BacklightBright => v > 0,
                ScreenProbe::BacklightPower => v == 0,
            },
        },
    }
}

} // verus!
