//! How the running application is addressed on the session bus.

use vstd::prelude::*;

verus! {

pub const DBUS_ID: &'static str = "com.predator.sense";

pub const DBUS_OBJECT_PATH: &'static str = "/com/predator/sense";

pub const DBUS_ACTIVATE_METHOD: &'static str = "org.gtk.Application.Activate";

} // verus!
