//! User-space thermal/frequency governor core.
//!
//! The crate holds the decision logic of a polling daemon that keeps a rooted
//! mobile device responsive without overheating: a thermal-zone classifier
//! with hysteresis, per-domain frequency stepping with slew-rate limits, a
//! debounced actuator cache, sensor-sample arithmetic, and the control-loop
//! mode machinery.  All file, process and network I/O lives outside this
//! crate; the functions here work on plain values read or written by that
//! outer layer.

pub mod actuator;
pub mod api;
pub mod control;
pub mod cpu;
pub mod domain;
pub mod fan;
pub mod fmt;
pub mod gamemode;
pub mod gpu;
pub mod leds;
pub mod mem;
pub mod notify;
pub mod power;
pub mod procwatch;
pub mod profiles;
pub mod screen;
pub mod state;
pub mod tempzone;
pub mod text;
pub mod thermal;
pub mod user_config;
