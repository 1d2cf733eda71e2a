//! A line from a local SOCKS5 client that is relayed through a line to the
//! remote gateway.
use vstd::prelude::*;
use crate::line::base_line::BaseLine;
use crate::line::event::LineEvent;
use crate::line::pair::LinePair;
use crate::line::status::{LineStatus, Status};
use self::network::Step;

pub mod network;

verus! {

pub struct LinePc {
    pub basic: BaseLine,
    pub pair_id: u64,
    pub step: Step,
}

impl View for LinePc {
    type V = LinePc;

    open spec fn view(&self) -> LinePc {
        *self
    }
}

impl LinePc {
    pub fn new(id: u64, pair_id: u64) -> (r: LinePc)
        ensures
            r == (LinePc { basic: BaseLine { id, status: Status::Raw }, pair_id, step: Step::Raw }),
    {
        LinePc { basic: BaseLine::new(id), pair_id, step: Step::Raw }
    }
}

impl LineStatus for LinePc {
    open spec fn status_of(v: LinePc) -> Status {
        v.basic.status
    }

    open spec fn with_status(v: LinePc, st: Status) -> LinePc {
        LinePc { basic: BaseLine { status: st, ..v.basic }, ..v }
    }

    proof fn lemma_with_own_status(v: LinePc) {
    }

    fn status(&self) -> (r: Status) {
        self.basic.status
    }

    fn set_status(&mut self, new: Status) {
        self.basic.status = new;
    }
}

impl LinePair for LinePc {
    open spec fn pair_id_of(v: LinePc) -> u64 {
        v.pair_id
    }

    open spec fn with_pair_id(v: LinePc, id: u64) -> LinePc {
        LinePc { pair_id: id, ..v }
    }

    open spec fn pair_closed(v: LinePc) -> LinePc {
        LinePc { pair_id: 0, ..v }
    }

    proof fn lemma_status_keeps_pair(v: LinePc, st: Status) {
    }

    fn pair_id(&self) -> (r: u64) {
        self.pair_id
    }

    fn set_pair_id(&mut self, id: u64) {
        self.pair_id = id;
    }

    fn on_pair_close(&mut self) {
        self.set_pair_id(0);
    }
}

impl LineEvent for LinePc {

}

} // verus!
