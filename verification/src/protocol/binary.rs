//! Names of the installed binaries.

use vstd::prelude::*;

verus! {

pub const INSTALLER: &'static str = "predator-sense-installer";

pub const APPLICATION: &'static str = "predator-sense";

pub const HELPER: &'static str = "predator-sense-helper";

pub const HOTKEY: &'static str = "predator-sense-hotkey";

pub const TRAY: &'static str = "predator-sense-tray";

} // verus!
