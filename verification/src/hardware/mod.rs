//! The policies the application runs: power modes, fans, lighting, alerts, and what it
//! reads off the machine.

pub mod agreement;
pub mod alerts;
pub mod blanking;
pub mod calibration;
pub mod calibration_cache;
pub mod chicony_rgb;
pub mod fan;
pub mod idle;
pub mod keyboard_rgb;
pub mod light_bar;
pub mod lighting;
pub mod machine;
pub mod notify;
pub mod power_profile;
pub mod ppd;
pub mod profile;
pub mod request;
pub mod resume;
pub mod sysinfo;
