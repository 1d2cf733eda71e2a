//! A line from a local client that speaks to this gateway directly: it
//! announces the host it wants, waits for the host's address to be looked
//! up and for the outgoing ("world") line to connect, then relays traffic.
use vstd::prelude::*;
use crate::line::base_line::BaseLine;
use crate::line::event::LineEvent;
use crate::line::pair::LinePair;
use crate::line::status::{LineStatus, Status};
use self::network::Step;

pub mod heart_beat;
pub mod network;

verus! {

pub struct LineMainLand {
    pub basic: BaseLine,
    pub pair_id: u64,
    pub step: Step,
    pub peer_ip: String,
    pub peer_port: u16,
    pub client_hello_data: Vec<u8>,
}

/// The abstract state of a `LineMainLand`.
pub struct MainLandView {
    pub basic: BaseLine,
    pub pair_id: u64,
    pub step: Step,
    pub peer_ip: Seq<char>,
    pub peer_port: u16,
    pub client_hello_data: Seq<u8>,
}

impl View for LineMainLand {
    type V = MainLandView;

    open spec fn view(&self) -> MainLandView {
        MainLandView {
            basic: self.basic,
            pair_id: self.pair_id,
            step: self.step,
            peer_ip: self.peer_ip@,
            peer_port: self.peer_port,
            client_hello_data: self.client_hello_data@,
        }
    }
}

impl LineMainLand {
    pub fn new(id: u64) -> (r: LineMainLand)
        ensures
            r@ == (MainLandView {
                basic: BaseLine { id, status: Status::Raw },
                pair_id: 0,
                step: Step::Raw,
                peer_ip: Seq::empty(),
                peer_port: 0,
                client_hello_data: Seq::empty(),
            }),
    {
        LineMainLand {
            basic: BaseLine::new(id),
            pair_id: 0,
            peer_ip: String::new(),
            peer_port: 0,
            client_hello_data: Vec::new(),
            step: Step::Raw,
        }
    }
}

impl LineStatus for LineMainLand {
    open spec fn status_of(v: MainLandView) -> Status {
        v.basic.status
    }

    open spec fn with_status(v: MainLandView, st: Status) -> MainLandView {
        MainLandView { basic: BaseLine { status: st, ..v.basic }, ..v }
    }

    proof fn lemma_with_own_status(v: MainLandView) {
    }

    fn status(&self) -> (r: Status) {
        self.basic.status
    }

    fn set_status(&mut self, new: Status) {
        self.basic.status = new;
    }
}

impl LinePair for LineMainLand {
    open spec fn pair_id_of(v: MainLandView) -> u64 {
        v.pair_id
    }

    open spec fn with_pair_id(v: MainLandView, id: u64) -> MainLandView {
        MainLandView { pair_id: id, ..v }
    }

    /// When its outgoing line goes, the client line cools down.
    open spec fn pair_closed(v: MainLandView) -> MainLandView {
        MainLandView { pair_id: 0, basic: BaseLine { status: Status::CoolDown, ..v.basic }, ..v }
    }

    proof fn lemma_status_keeps_pair(v: MainLandView, st: Status) {
    }

    fn pair_id(&self) -> (r: u64) {
        self.pair_id
    }

    fn set_pair_id(&mut self, id: u64) {
        self.pair_id = id;
    }

    fn on_pair_close(&mut self) {
        self.set_pair_id(0);
        self.set_status(Status::CoolDown);
    }
}

impl LineEvent for LineMainLand {

}

} // verus!
