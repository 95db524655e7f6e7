//! Which desktop notifications are sent.

use vstd::prelude::*;

verus! {

/// Replaces an earlier alert, and nothing else.
pub const TEMPERATURE_ALERT_ID: &'static str = "temperature-alert";

/// One id, so that a run of mode changes replaces its own notification.
pub const MODE_CHANGED_ID: &'static str = "mode-changed";

/// Whether a mode is announced: not where notifications are off, and not the first mode seen
/// in a session, which is no change that anyone asked about.
pub fn mode_changed<M>(previous: &Option<M>, enabled: bool) -> (r: bool)
    ensures
        r == (enabled && previous is Some),
        !enabled ==> !r,
        previous is None ==> !r,
        enabled && previous is Some ==> r,
{
    enabled && previous.is_some()
}

} // verus!
