//! The connection status of a line.
use vstd::prelude::*;

verus! {

/// Where a line stands in its connection life cycle.
#[derive(PartialEq, Eq, Structural, Clone, Copy, Debug)]
pub enum Status {
    Raw,
    WriteOpen,
    Register,
    Establish,
    CoolDown,
    ReadClose,
    WriteClose,
    ReadWriteBothClose,
    DeRegister,
    Close,
    Dead,
}

/// Access to a line's status.  Some lines do not keep a status: for them
/// `status` is always `Raw` and `set_status` changes nothing.  The contracts
/// speak of the line's view.
pub trait LineStatus: View + Sized {
    /// The status a line with view `v` reports.
    spec fn status_of(v: Self::V) -> Status;

    /// The view after `set_status(st)`.
    spec fn with_status(v: Self::V, st: Status) -> Self::V;

    /// Setting the status a line already reports changes nothing.
    proof fn lemma_with_own_status(v: Self::V)
        ensures
            Self::with_status(v, Self::status_of(v)) == v,
    ;

    fn status(&self) -> (r: Status)
        ensures
            r == Self::status_of(self@),
    ;

    fn set_status(&mut self, new: Status)
        ensures
            final(self)@ == Self::with_status(old(self)@, new),
    ;
}

} // verus!
