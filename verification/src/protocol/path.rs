//! Where the installed files live.

use vstd::prelude::*;

verus! {

pub const INSTALL_DIR: &'static str = "/opt/predator-sense";

pub const INSTALLER: &'static str = "/opt/predator-sense/predator-sense-installer";

pub const APPLICATION: &'static str = "/opt/predator-sense/predator-sense";

pub const HELPER: &'static str = "/opt/predator-sense/predator-sense-helper";

pub const HOTKEY: &'static str = "/opt/predator-sense/predator-sense-hotkey";

pub const TRAY: &'static str = "/opt/predator-sense/predator-sense-tray";

pub const TRAY_LOCK: &'static str = "/tmp/predator-sense-tray.lock";

pub const TRAY_LOG: &'static str = "/tmp/predator-sense-tray.log";

} // verus!
