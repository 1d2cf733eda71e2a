//! Pairing of lines: the line that a line forwards its traffic to.
use vstd::prelude::*;
use crate::line::status::{LineStatus, Status};

verus! {

/// A line may be paired with another line (by id; 0 means no pair).
pub trait LinePair: LineStatus {
    spec fn pair_id_of(v: Self::V) -> u64;

    /// The view after `set_pair_id(id)` (lines that do not keep a pair ignore it).
    spec fn with_pair_id(v: Self::V, id: u64) -> Self::V;

    /// The view after the line's pair has closed.
    spec fn pair_closed(v: Self::V) -> Self::V;

    /// Law: changing a line's status keeps its pair.
    proof fn lemma_status_keeps_pair(v: Self::V, st: Status)
        ensures
            Self::pair_id_of(Self::with_status(v, st)) == Self::pair_id_of(v),
    ;

    fn pair_id(&self) -> (r: u64)
        ensures
            r == Self::pair_id_of(self@),
    ;

    fn set_pair_id(&mut self, id: u64)
        ensures
            final(self)@ == Self::with_pair_id(old(self)@, id),
    ;

    fn on_pair_close(&mut self)
        ensures
            final(self)@ == Self::pair_closed(old(self)@),
    ;
}

} // verus!
