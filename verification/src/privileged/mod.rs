//! What the privileged helper decides: which action a command line asks for and with
//! which values, what is written where and in which order, what a read-back has to show,
//! and what is undone when it does not.

pub mod attributes;
pub mod boot;
pub mod capability;
pub mod chicony;
pub mod commands;
pub mod constants;
pub mod cpu_apply;
pub mod cpu_lock;
pub mod cpu_profile;
pub mod cpu_verify;
pub mod daemon;
pub mod ec;
pub mod grub;
pub mod job;
pub mod messages;
pub mod mode_cycle;
pub mod temp_ceiling;
