//! The search for a first peer among the candidates that discovery found.

use vstd::prelude::*;

verus! {

/// The search for a first peer: candidates are dialed one at a time until
/// one dial succeeds; after that no further candidate is dialed.
pub struct CandidateSearch {
    connected: bool,
}

impl View for CandidateSearch {
    type V = bool;

    /// Whether a dial has succeeded.
    closed spec fn view(&self) -> bool {
        self.connected
    }
}

impl CandidateSearch {
    /// A search in which no dial has succeeded yet.
    pub fn new() -> (search: Self)
        ensures
            !search@,
    {
        CandidateSearch { connected: false }
    }

    /// Whether the next candidate is to be dialed: as long as no dial has
    /// succeeded.
    pub fn wants_candidate(&self) -> (wanted: bool)
        ensures
            wanted == !self@,
    {
        !self.connected
    }

    /// Records how the dial of a candidate ended. The first success ends the
    /// search; a failure leaves it as it was.
    pub fn record_dial(&mut self, succeeded: bool)
        ensures
            final(self)@ == (old(self)@ || succeeded),
    {
        if succeeded {
            self.connected = true;
        }
    }
}

} // verus!
