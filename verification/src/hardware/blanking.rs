//! The "is this device blanked" flag that every device with idle blanking has.
//!
//! The flag records what the hardware did: it changes only after a write that succeeded. The
//! idle tick acts where the flag differs from what it wants, so that a failed write is tried
//! again on the next tick.

use vstd::prelude::*;

verus! {

/// The blanked flag of one device.
#[derive(Debug)]
pub struct Blanking {
    blanked: bool,
}

impl View for Blanking {
    type V = bool;

    closed spec fn view(&self) -> bool {
        self.blanked
    }
}

impl Blanking {
    /// A device that shows something.
    pub fn new() -> (r: Self)
        ensures
            !r@,
    {
        Blanking { blanked: false }
    }

    /// Whether the device is blanked.
    pub fn is_blanked(&self) -> (r: bool)
        ensures
            r == self@,
    {
        self.blanked
    }

    /// Runs `write`, and records `blanked` only if it succeeded. The outcome is passed on as
    /// it is.
    pub fn set<F: FnOnce() -> Result<(), String>>(&mut self, blanked: bool, write: F) -> (r: Result<
        (),
        String,
    >)
        requires
            call_requires(write, ()),
        ensures
            call_ensures(write, (), r),
            final(self)@ == (if r is Ok {
                blanked
            } else {
                old(self)@
            }),
            r is Ok ==> final(self)@ == blanked,
            r is Err ==> final(self)@ == old(self)@,
    {
        let r = write();
        if r.is_ok() {
            self.blanked = blanked;
        }
        r
    }
}

impl Default for Blanking {
    fn default() -> (r: Self)
        ensures
            !r@,
    {
        Blanking::new()
    }
}

} // verus!
