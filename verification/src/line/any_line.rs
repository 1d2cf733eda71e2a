//! A line of any kind, as the gateway keeps them in one table.
use vstd::prelude::*;
use crate::config::DNS_ID;
use crate::line::dns::{DnsView, LineDns};
use crate::line::event::LineEvent;
use crate::line::mainland::{LineMainLand, MainLandView};
use crate::line::network::{LineNetWork, NetworkOutcome};
use crate::line::pair::LinePair;
use crate::line::pc::LinePc;
use crate::line::status::{LineStatus, Status};
use crate::line::tcp2vps::LineTcp2Vps;
use crate::line::world::{LineWorld, WorldView};

verus! {

pub enum AnyLine {
    Dns(LineDns),
    Tcp2Vps(LineTcp2Vps),
    Pc(LinePc),
    MainLand(LineMainLand),
    World(LineWorld),
}

pub enum AnyLineView {
    Dns(DnsView),
    Tcp2Vps(LineTcp2Vps),
    Pc(LinePc),
    MainLand(MainLandView),
    World(WorldView),
}

impl View for AnyLine {
    type V = AnyLineView;

    open spec fn view(&self) -> AnyLineView {
        match self {
            AnyLine::Dns(l) => AnyLineView::Dns(l@),
            AnyLine::Tcp2Vps(l) => AnyLineView::Tcp2Vps(l@),
            AnyLine::Pc(l) => AnyLineView::Pc(l@),
            AnyLine::MainLand(l) => AnyLineView::MainLand(l@),
            AnyLine::World(l) => AnyLineView::World(l@),
        }
    }
}

impl AnyLineView {
    /// The line's id (the DNS line always has `DNS_ID`).
    pub open spec fn id(self) -> u64 {
        match self {
            AnyLineView::Dns(_) => DNS_ID,
            AnyLineView::Tcp2Vps(l) => l.basic.id,
            AnyLineView::Pc(l) => l.basic.id,
            AnyLineView::MainLand(l) => l.basic.id,
            AnyLineView::World(l) => l.basic.id,
        }
    }

    pub open spec fn status(self) -> Status {
        AnyLine::status_of(self)
    }

    pub open spec fn pair_id(self) -> u64 {
        AnyLine::pair_id_of(self)
    }
}

/// Changing a line's status, pair or contents never changes its id, and it
/// never forwards more bytes than its buffer holds.
pub proof fn lemma_id_stable(v: AnyLineView, st: Status, p: u64, buf: Seq<u8>, now: i64)
    ensures
        AnyLine::with_status(v, st).id() == v.id(),
        AnyLine::with_pair_id(v, p).id() == v.id(),
        AnyLine::pair_closed(v).id() == v.id(),
        AnyLine::network_data(v, buf, now).0.id() == v.id(),
        AnyLine::network_data(v, buf, now).2.0 <= AnyLine::network_data(v, buf, now).1.len(),
        AnyLine::network_data(v, buf, now).1.len() == buf.len(),
        AnyLine::pair_id_of(AnyLine::network_data(v, buf, now).0) == AnyLine::pair_id_of(v),
        AnyLine::pair_id_of(AnyLine::with_status(v, st)) == AnyLine::pair_id_of(v),
{
}

/// Law: a line told that its pair closed keeps its id and no longer has a
/// pair when it keeps one; a tunnel line and a client line also cool down
/// (a tunnel line is not ready again until the remote side answers a heart
/// beat); a SOCKS5 client line keeps its status; the outgoing and DNS lines
/// do not change.
pub proof fn lemma_pair_closed_frees(v: AnyLineView)
    ensures
        AnyLine::pair_closed(v).id() == v.id(),
        v is Tcp2Vps ==> AnyLine::pair_closed(v) == AnyLineView::Tcp2Vps(
            LineTcp2Vps {
                pair_id: 0,
                basic: crate::line::base_line::BaseLine { status: Status::CoolDown, ..v->Tcp2Vps_0.basic },
                ..v->Tcp2Vps_0
            },
        ),
        v is Tcp2Vps ==> forall|t: i64| !(#[trigger] AnyLine::pair_closed(v)->Tcp2Vps_0.is_ready_spec(t)),
        v is MainLand ==> AnyLine::pair_closed(v).pair_id() == 0 && AnyLine::pair_closed(v).status() == Status::CoolDown,
        v is Pc ==> AnyLine::pair_closed(v).pair_id() == 0 && AnyLine::pair_closed(v).status() == v.status(),
        v is World || v is Dns ==> AnyLine::pair_closed(v) == v,
{
}

impl AnyLine {
    pub fn id(&self) -> (r: u64)
        ensures
            r == self@.id(),
    {
        match self {
            AnyLine::Dns(_) => DNS_ID,
            AnyLine::Tcp2Vps(l) => l.basic.id,
            AnyLine::Pc(l) => l.basic.id,
            AnyLine::MainLand(l) => l.basic.id,
            AnyLine::World(l) => l.basic.id,
        }
    }
}

impl LineStatus for AnyLine {
    open spec fn status_of(v: AnyLineView) -> Status {
        match v {
            AnyLineView::Dns(l) => LineDns::status_of(l),
            AnyLineView::Tcp2Vps(l) => LineTcp2Vps::status_of(l),
            AnyLineView::Pc(l) => LinePc::status_of(l),
            AnyLineView::MainLand(l) => LineMainLand::status_of(l),
            AnyLineView::World(l) => LineWorld::status_of(l),
        }
    }

    open spec fn with_status(v: AnyLineView, st: Status) -> AnyLineView {
        match v {
            AnyLineView::Dns(l) => AnyLineView::Dns(LineDns::with_status(l, st)),
            AnyLineView::Tcp2Vps(l) => AnyLineView::Tcp2Vps(LineTcp2Vps::with_status(l, st)),
            AnyLineView::Pc(l) => AnyLineView::Pc(LinePc::with_status(l, st)),
            AnyLineView::MainLand(l) => AnyLineView::MainLand(LineMainLand::with_status(l, st)),
            AnyLineView::World(l) => AnyLineView::World(LineWorld::with_status(l, st)),
        }
    }

    proof fn lemma_with_own_status(v: AnyLineView) {
        match v {
            AnyLineView::Dns(l) => LineDns::lemma_with_own_status(l),
            AnyLineView::Tcp2Vps(l) => LineTcp2Vps::lemma_with_own_status(l),
            AnyLineView::Pc(l) => LinePc::lemma_with_own_status(l),
            AnyLineView::MainLand(l) => LineMainLand::lemma_with_own_status(l),
            AnyLineView::World(l) => LineWorld::lemma_with_own_status(l),
        }
    }

    fn status(&self) -> (r: Status) {
        match self {
            AnyLine::Dns(l) => l.status(),
            AnyLine::Tcp2Vps(l) => l.status(),
            AnyLine::Pc(l) => l.status(),
            AnyLine::MainLand(l) => l.status(),
            AnyLine::World(l) => l.status(),
        }
    }

    fn set_status(&mut self, new: Status) {
        match self {
            AnyLine::Dns(l) => l.set_status(new),
            AnyLine::Tcp2Vps(l) => l.set_status(new),
            AnyLine::Pc(l) => l.set_status(new),
            AnyLine::MainLand(l) => l.set_status(new),
            AnyLine::World(l) => l.set_status(new),
        }
    }
}

impl LinePair for AnyLine {
    open spec fn pair_id_of(v: AnyLineView) -> u64 {
        match v {
            AnyLineView::Dns(l) => LineDns::pair_id_of(l),
            AnyLineView::Tcp2Vps(l) => LineTcp2Vps::pair_id_of(l),
            AnyLineView::Pc(l) => LinePc::pair_id_of(l),
            AnyLineView::MainLand(l) => LineMainLand::pair_id_of(l),
            AnyLineView::World(l) => LineWorld::pair_id_of(l),
        }
    }

    open spec fn with_pair_id(v: AnyLineView, id: u64) -> AnyLineView {
        match v {
            AnyLineView::Dns(l) => AnyLineView::Dns(LineDns::with_pair_id(l, id)),
            AnyLineView::Tcp2Vps(l) => AnyLineView::Tcp2Vps(LineTcp2Vps::with_pair_id(l, id)),
            AnyLineView::Pc(l) => AnyLineView::Pc(LinePc::with_pair_id(l, id)),
            AnyLineView::MainLand(l) => AnyLineView::MainLand(LineMainLand::with_pair_id(l, id)),
            AnyLineView::World(l) => AnyLineView::World(LineWorld::with_pair_id(l, id)),
        }
    }

    open spec fn pair_closed(v: AnyLineView) -> AnyLineView {
        match v {
            AnyLineView::Dns(l) => AnyLineView::Dns(LineDns::pair_closed(l)),
            AnyLineView::Tcp2Vps(l) => AnyLineView::Tcp2Vps(LineTcp2Vps::pair_closed(l)),
            AnyLineView::Pc(l) => AnyLineView::Pc(LinePc::pair_closed(l)),
            AnyLineView::MainLand(l) => AnyLineView::MainLand(LineMainLand::pair_closed(l)),
            AnyLineView::World(l) => AnyLineView::World(LineWorld::pair_closed(l)),
        }
    }

    proof fn lemma_status_keeps_pair(v: AnyLineView, st: Status) {
        match v {
            AnyLineView::Dns(l) => LineDns::lemma_status_keeps_pair(l, st),
            AnyLineView::Tcp2Vps(l) => LineTcp2Vps::lemma_status_keeps_pair(l, st),
            AnyLineView::Pc(l) => LinePc::lemma_status_keeps_pair(l, st),
            AnyLineView::MainLand(l) => LineMainLand::lemma_status_keeps_pair(l, st),
            AnyLineView::World(l) => LineWorld::lemma_status_keeps_pair(l, st),
        }
    }

    fn pair_id(&self) -> (r: u64) {
        match self {
            AnyLine::Dns(l) => l.pair_id(),
            AnyLine::Tcp2Vps(l) => l.pair_id(),
            AnyLine::Pc(l) => l.pair_id(),
            AnyLine::MainLand(l) => l.pair_id(),
            AnyLine::World(l) => l.pair_id(),
        }
    }

    fn set_pair_id(&mut self, id: u64) {
        match self {
            AnyLine::Dns(l) => l.set_pair_id(id),
            AnyLine::Tcp2Vps(l) => l.set_pair_id(id),
            AnyLine::Pc(l) => l.set_pair_id(id),
            AnyLine::MainLand(l) => l.set_pair_id(id),
            AnyLine::World(l) => l.set_pair_id(id),
        }
    }

    fn on_pair_close(&mut self) {
        match self {
            AnyLine::Dns(l) => l.on_pair_close(),
            AnyLine::Tcp2Vps(l) => l.on_pair_close(),
            AnyLine::Pc(l) => l.on_pair_close(),
            AnyLine::MainLand(l) => l.on_pair_close(),
            AnyLine::World(l) => l.on_pair_close(),
        }
    }
}

impl LineNetWork for AnyLine {
    open spec fn network_data_ok(v: AnyLineView, buf: Seq<u8>) -> bool {
        match v {
            AnyLineView::Dns(l) => LineDns::network_data_ok(l, buf),
            AnyLineView::Tcp2Vps(l) => LineTcp2Vps::network_data_ok(l, buf),
            AnyLineView::Pc(l) => LinePc::network_data_ok(l, buf),
            AnyLineView::MainLand(l) => LineMainLand::network_data_ok(l, buf),
            AnyLineView::World(l) => LineWorld::network_data_ok(l, buf),
        }
    }

    open spec fn network_data(v: AnyLineView, buf: Seq<u8>, now: i64) -> (AnyLineView, Seq<u8>, (nat, Option<(Seq<u8>, bool)>)) {
        match v {
            AnyLineView::Dns(l) => {
                let (l2, b, o) = LineDns::network_data(l, buf, now);
                (AnyLineView::Dns(l2), b, o)
            },
            AnyLineView::Tcp2Vps(l) => {
                let (l2, b, o) = LineTcp2Vps::network_data(l, buf, now);
                (AnyLineView::Tcp2Vps(l2), b, o)
            },
            AnyLineView::Pc(l) => {
                let (l2, b, o) = LinePc::network_data(l, buf, now);
                (AnyLineView::Pc(l2), b, o)
            },
            AnyLineView::MainLand(l) => {
                let (l2, b, o) = LineMainLand::network_data(l, buf, now);
                (AnyLineView::MainLand(l2), b, o)
            },
            AnyLineView::World(l) => {
                let (l2, b, o) = LineWorld::network_data(l, buf, now);
                (AnyLineView::World(l2), b, o)
            },
        }
    }

    open spec fn peer_ip_of(v: AnyLineView) -> Seq<char> {
        match v {
            AnyLineView::Dns(l) => LineDns::peer_ip_of(l),
            AnyLineView::Tcp2Vps(l) => LineTcp2Vps::peer_ip_of(l),
            AnyLineView::Pc(l) => LinePc::peer_ip_of(l),
            AnyLineView::MainLand(l) => LineMainLand::peer_ip_of(l),
            AnyLineView::World(l) => LineWorld::peer_ip_of(l),
        }
    }

    fn on_network_data(&mut self, buf: &mut [u8], now: i64) -> (r: NetworkOutcome) {
        match self {
            AnyLine::Dns(l) => l.on_network_data(buf, now),
            AnyLine::Tcp2Vps(l) => l.on_network_data(buf, now),
            AnyLine::Pc(l) => l.on_network_data(buf, now),
            AnyLine::MainLand(l) => l.on_network_data(buf, now),
            AnyLine::World(l) => l.on_network_data(buf, now),
        }
    }

    fn forward_len(&self, buf: &[u8], now: i64) -> (r: usize) {
        match self {
            AnyLine::Dns(l) => l.forward_len(buf, now),
            AnyLine::Tcp2Vps(l) => l.forward_len(buf, now),
            AnyLine::Pc(l) => l.forward_len(buf, now),
            AnyLine::MainLand(l) => l.forward_len(buf, now),
            AnyLine::World(l) => l.forward_len(buf, now),
        }
    }

    fn network_data_acceptable(&self, buf: &[u8]) -> (r: bool) {
        match self {
            AnyLine::Dns(l) => l.network_data_acceptable(buf),
            AnyLine::Tcp2Vps(l) => l.network_data_acceptable(buf),
            AnyLine::Pc(l) => l.network_data_acceptable(buf),
            AnyLine::MainLand(l) => l.network_data_acceptable(buf),
            AnyLine::World(l) => l.network_data_acceptable(buf),
        }
    }

    fn peer_ip(&self) -> (r: String) {
        match self {
            AnyLine::Dns(l) => l.peer_ip(),
            AnyLine::Tcp2Vps(l) => l.peer_ip(),
            AnyLine::Pc(l) => l.peer_ip(),
            AnyLine::MainLand(l) => l.peer_ip(),
            AnyLine::World(l) => l.peer_ip(),
        }
    }
}

impl LineEvent for AnyLine {

}

} // verus!
