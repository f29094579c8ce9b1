//! What devices can do.

use crate::connection::ConnectResult;
use vstd::prelude::*;

verus! {

/// Something that can say in a few words how it is.
pub trait Summary {
    /// Whether the value is in order, which `summary` asks of it.
    spec fn summary_ready(&self) -> bool;

    /// The words that `summary` gives.
    spec fn summary_text(&self) -> Seq<char>;

    fn summary(&self) -> (text: String)
        requires
            self.summary_ready(),
        ensures
            text@ == self.summary_text(),
    ;
}

/// Something with a name, by which it is found, and a description.
pub trait Device {
    spec fn name(&self) -> Seq<char>;

    spec fn description(&self) -> Seq<char>;

    fn get_name(&self) -> (name: &str)
        ensures
            name@ == self.name(),
    ;

    fn get_description(&self) -> (description: &str)
        ensures
            description@ == self.description(),
    ;
}

/// A device that can say how it is.
pub trait DeviceStatus: Device + Summary {

}

/// Something that can be switched over, which may fail, and of which it is on
/// record what it was asked.
pub trait Switcher {
    /// The outcomes of all the switches that were asked of this value, the
    /// first one first.
    spec fn asked(&self) -> Seq<ConnectResult<()>>;

    /// Switches over once. The outcome is the next entry of the record.
    fn switch(&mut self) -> (outcome: ConnectResult<()>)
        ensures
            final(self).asked() == old(self).asked().push(outcome),
    ;
}

/// Something that can be switched over, which may fail, and that keeps no
/// record of it. This is the form for a switcher that is written outside the
/// library's proofs; `Recorded` makes a `Switcher` of it.
pub trait Unrecorded {
    /// Switches over once.
    fn switch(&mut self) -> (outcome: ConnectResult<()>);
}

} // verus!
