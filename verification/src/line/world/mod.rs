//! An outgoing line from this gateway to the host a client asked for.
use vstd::prelude::*;
use crate::line::base_line::BaseLine;
use crate::line::event::LineEvent;
use crate::line::network::{LineNetWork, NetworkOutcome};
use crate::line::pair::LinePair;
use crate::line::status::{LineStatus, Status};

verus! {

pub struct LineWorld {
    pub basic: BaseLine,
    pub pair_id: u64,
    pub peer_address: String,
}

/// The abstract state of a `LineWorld`.
pub struct WorldView {
    pub basic: BaseLine,
    pub pair_id: u64,
    pub peer_address: Seq<char>,
}

impl View for LineWorld {
    type V = WorldView;

    open spec fn view(&self) -> WorldView {
        WorldView { basic: self.basic, pair_id: self.pair_id, peer_address: self.peer_address@ }
    }
}

impl LineWorld {
    pub fn new(id: u64, pair_id: u64) -> (r: LineWorld)
        ensures
            r@ == (WorldView {
                basic: BaseLine { id, status: Status::Raw },
                pair_id,
                peer_address: Seq::empty(),
            }),
    {
        LineWorld { basic: BaseLine::new(id), pair_id, peer_address: String::new() }
    }

    pub fn set_peer_address(&mut self, s: String)
        ensures
            final(self)@ == (WorldView { peer_address: s@, ..old(self)@ }),
    {
        self.peer_address = s;
    }
}

impl LineStatus for LineWorld {
    open spec fn status_of(v: WorldView) -> Status {
        v.basic.status
    }

    open spec fn with_status(v: WorldView, st: Status) -> WorldView {
        WorldView { basic: BaseLine { status: st, ..v.basic }, ..v }
    }

    proof fn lemma_with_own_status(v: WorldView) {
    }

    fn status(&self) -> (r: Status) {
        self.basic.status
    }

    fn set_status(&mut self, new: Status) {
        self.basic.status = new;
    }
}

/// An outgoing line keeps the client it was created for: setting its pair,
/// or losing it, leaves it unchanged.
impl LinePair for LineWorld {
    open spec fn pair_id_of(v: WorldView) -> u64 {
        v.pair_id
    }

    open spec fn with_pair_id(v: WorldView, id: u64) -> WorldView {
        v
    }

    open spec fn pair_closed(v: WorldView) -> WorldView {
        v
    }

    proof fn lemma_status_keeps_pair(v: WorldView, st: Status) {
    }

    fn pair_id(&self) -> (r: u64) {
        self.pair_id
    }

    fn set_pair_id(&mut self, id: u64) {
    }

    fn on_pair_close(&mut self) {
        self.set_pair_id(0);
    }
}

impl LineNetWork for LineWorld {
    open spec fn network_data_ok(v: WorldView, buf: Seq<u8>) -> bool {
        true
    }

    /// Everything the host sends goes on to the client.
    open spec fn network_data(v: WorldView, buf: Seq<u8>, now: i64) -> (WorldView, Seq<u8>, (nat, Option<(Seq<u8>, bool)>)) {
        (v, buf, (buf.len(), None))
    }

    open spec fn peer_ip_of(v: WorldView) -> Seq<char> {
        v.peer_address
    }

    fn on_network_data(&mut self, buf: &mut [u8], now: i64) -> (r: NetworkOutcome) {
        NetworkOutcome::forward_only(buf.len())
    }

    fn forward_len(&self, buf: &[u8], now: i64) -> (r: usize) {
        buf.len()
    }

    fn network_data_acceptable(&self, buf: &[u8]) -> (r: bool) {
        true
    }

    fn peer_ip(&self) -> (r: String) {
        self.peer_address.clone()
    }
}

impl LineEvent for LineWorld {

}

} // verus!
