//! What every line has: its id and its status.
use vstd::prelude::*;
use crate::line::status::Status;

verus! {

pub struct BaseLine {
    pub id: u64,
    pub status: Status,
}

impl BaseLine {
    pub fn new(id: u64) -> (r: BaseLine)
        ensures
            r == (BaseLine { id, status: Status::Raw }),
    {
        BaseLine { id, status: Status::Raw }
    }
}

} // verus!
