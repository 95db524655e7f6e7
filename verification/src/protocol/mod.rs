//! Stable contract shared by the application, the installer and the privileged helper.

pub mod application;
pub mod backlight;
pub mod base64_lite;
pub mod battery;
pub mod binary;
pub mod grub_splash;
pub mod helper;
pub mod installer;
pub mod internal;
pub mod path;
pub mod temp_limit;
pub mod thermal_profile;
