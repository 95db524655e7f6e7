//! Coalescing a burst of changes into one write.

use vstd::prelude::*;

verus! {

/// Counts the changes. Each change starts a delay; when it is over, only the latest change
/// acts.
#[derive(Debug)]
pub struct Debouncer {
    generation: u64,
}

impl View for Debouncer {
    type V = u64;

    closed spec fn view(&self) -> u64 {
        self.generation
    }
}

impl Debouncer {
    pub fn new() -> (r: Self)
        ensures
            r@ == 0,
    {
        Debouncer { generation: 0 }
    }

    /// Takes note of a change and returns its ticket.
    pub fn change(&mut self) -> (r: u64)
        ensures
            final(self)@ == r,
            r == (if old(self)@ == u64::MAX {
                0
            } else {
                old(self)@ + 1
            }),
            r != old(self)@,
    {
        self.generation = if self.generation == u64::MAX {
            0
        } else {
            self.generation + 1
        };
        self.generation
    }

    /// Whether the change with this ticket acts once its delay is over: whether no other came
    /// after it.
    pub fn acts(&self, ticket: u64) -> (r: bool)
        ensures
            r == (self@ == ticket),
    {
        self.generation == ticket
    }
}

} // verus!
