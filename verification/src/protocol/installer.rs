//! The installer's command line.

use vstd::prelude::*;

verus! {

pub const INSTALL_ARGUMENT: &'static str = "--install";

pub const UNINSTALL_ARGUMENT: &'static str = "--uninstall";

pub const RELOAD_MODULE_ARGUMENT: &'static str = "--reload-module";

pub const STATUS_ARGUMENT: &'static str = "--status";

pub const HELP_ARGUMENT: &'static str = "--help";

pub const HELP_SHORT_ARGUMENT: &'static str = "-h";

pub const VERSION_ARGUMENT: &'static str = "--version";

pub const VERSION_SHORT_ARGUMENT: &'static str = "-V";

} // verus!
