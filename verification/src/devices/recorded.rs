//! The record of what a switcher was asked, kept for a switcher that keeps
//! none.

use crate::connection::ConnectResult;
use crate::devices::device::{Switcher, Unrecorded};
use vstd::prelude::*;

verus! {

/// A switcher together with the record of what it was asked since the record
/// was begun.
pub struct Recorded<U: Unrecorded> {
    switcher: U,
    asked: Ghost<Seq<ConnectResult<()>>>,
}

impl<U: Unrecorded> Recorded<U> {
    /// The switcher whose record is kept.
    pub closed spec fn switcher(&self) -> U {
        self.switcher
    }

    /// Begins the record of `switcher`, with nothing in it.
    pub fn new(switcher: U) -> (recorded: Self)
        ensures
            recorded.switcher() == switcher,
            recorded.asked() == Seq::<ConnectResult<()>>::empty(),
    {
        Recorded { switcher, asked: Ghost(Seq::empty()) }
    }

    /// Ends the record and hands the switcher back.
    pub fn into_inner(self) -> (switcher: U)
        ensures
            switcher == self.switcher(),
    {
        self.switcher
    }
}

impl<U: Unrecorded> Switcher for Recorded<U> {
    closed spec fn asked(&self) -> Seq<ConnectResult<()>> {
        self.asked@
    }

    /// Asks the switcher once, enters what it answered in the record and
    /// hands it on. What the switcher answers is for the switcher to say: it is
    /// written outside the library's proofs.
    fn switch(&mut self) -> (outcome: ConnectResult<()>) {
        let outcome = self.switcher.switch();
        proof {
            self.asked@ = self.asked@.push(outcome);
        }
        outcome
    }
}

} // verus!
