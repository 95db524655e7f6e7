//! Arguments the binaries pass to one another, and how the helper frames its replies in daemon mode.

use vstd::prelude::*;

verus! {

pub const HELPER_ARGUMENT: &'static str = "--internal-helper";

pub const HOTKEY_ARGUMENT: &'static str = "--internal-hotkey";

pub const TRAY_ARGUMENT: &'static str = "--internal-tray";

pub const DELAYED_APPLICATION_START_ARGUMENT: &'static str = "--internal-delayed-start";

pub const APPLICATION_RESTART_DELAY_MS: u64 = 500;

/// Puts the privileged helper into daemon mode: it reads one action line at a time
/// from its standard input (the same words as its command line) until that closes,
/// and answers each with [`HELPER_DAEMON_OK`] or [`HELPER_DAEMON_ERR`], so a caller
/// pays for one privileged session and reuses it for many writes.
pub const HELPER_DAEMON_ARGUMENT: &'static str = "--daemon";

/// Marks the end of a successful daemon reply. Never a value any action
/// prints for itself (those are plain numbers or fixed enum words), so a
/// caller can tell reply framing from output on the same stream.
pub const HELPER_DAEMON_OK: &'static str = "__predator_sense_helper_ok__";

/// Marks the end of a failed daemon reply; the rest of the line is the
/// error message, with any newlines in it collapsed to spaces so the
/// reply still fits on one line.
pub const HELPER_DAEMON_ERR: &'static str = "__predator_sense_helper_err__";

/// The words the binaries agree on.
pub proof fn law_internal_words()
    ensures
        HELPER_ARGUMENT@ == "--internal-helper"@,
        HOTKEY_ARGUMENT@ == "--internal-hotkey"@,
        TRAY_ARGUMENT@ == "--internal-tray"@,
        DELAYED_APPLICATION_START_ARGUMENT@ == "--internal-delayed-start"@,
        HELPER_DAEMON_ARGUMENT@ == "--daemon"@,
        HELPER_DAEMON_OK@ == "__predator_sense_helper_ok__"@,
        HELPER_DAEMON_ERR@ == "__predator_sense_helper_err__"@,
        APPLICATION_RESTART_DELAY_MS == 500,
{
}

} // verus!
