//! New lines for the gateway's table.
use vstd::prelude::*;
use crate::config::DNS_ID;
use crate::gate::{Gate, GateView, lemma_index_of};
use crate::global::{opt_bytes, spec_be_bytes};
use crate::line::any_line::{AnyLine, AnyLineView};
use crate::line::base_line::BaseLine;
use crate::line::dns::{DnsView, LineDns};
use crate::line::mainland::{LineMainLand, MainLandView};
use crate::line::mainland::network::Step as MainLandStep;
use crate::line::pc::LinePc;
use crate::line::pc::network::Step as PcStep;
use crate::line::status::Status;
use crate::line::tcp2vps::LineTcp2Vps;
use crate::line::world::{LineWorld, WorldView};

verus! {

/// A fresh line to the remote gateway.
pub open spec fn hk_view(id: u64) -> AnyLineView {
    AnyLineView::Tcp2Vps(
        LineTcp2Vps {
            basic: BaseLine { id, status: Status::Raw },
            pair_id: 0,
            last_send_heart_beat: 0,
            last_recv_heart_beat: 0,
        },
    )
}

/// A fresh SOCKS5 client line relayed through line `pair_id`.
pub open spec fn pc_view(id: u64, pair_id: u64) -> AnyLineView {
    AnyLineView::Pc(LinePc { basic: BaseLine { id, status: Status::Raw }, pair_id, step: PcStep::Raw })
}

/// A fresh direct client line.
pub open spec fn mainland_view(id: u64) -> AnyLineView {
    AnyLineView::MainLand(
        MainLandView {
            basic: BaseLine { id, status: Status::Raw },
            pair_id: 0,
            step: MainLandStep::Raw,
            peer_ip: Seq::empty(),
            peer_port: 0,
            client_hello_data: Seq::empty(),
        },
    )
}

/// A fresh outgoing line for client line `pair_id`.
pub open spec fn world_view(id: u64, pair_id: u64) -> AnyLineView {
    AnyLineView::World(WorldView { basic: BaseLine { id, status: Status::Raw }, pair_id, peer_address: Seq::empty() })
}

impl GateView {
    /// The table after a line with a new id joins it.
    pub open spec fn add_line(self, l: AnyLineView) -> GateView {
        GateView { lines: self.lines.push(l), last_id: (self.last_id + 1) as u64, ..self }
    }
}

impl Gate {
    /// The next line id.
    fn next_id(&mut self) -> (r: u64)
        requires
            old(self)@.last_id < u64::MAX,
        ensures
            r == old(self)@.last_id + 1,
            final(self)@ == (GateView { last_id: r, ..old(self)@ }),
    {
        let r = self.global.next_id();
        assert(self@.lines =~= old(self)@.lines);
        r
    }

    /// Adds a line whose id was just handed out.
    fn push_new(&mut self, line: AnyLine)
        requires
            old(self)@.wf(),
            line@.id() == old(self)@.last_id,
            !(line@ is Dns),
            old(self)@.last_id > 10,
            forall|i: int| 0 <= i < old(self)@.lines.len() ==> #[trigger] old(self)@.lines[i].id() < old(self)@.last_id
                || old(self)@.lines[i] is Dns,
        ensures
            final(self)@ == (GateView { lines: old(self)@.lines.push(line@), ..old(self)@ }),
            final(self)@.wf(),
    {
        self.lines.push(line);
        assert(self@.lines =~= old(self)@.lines.push(line@));
    }

    /// Adds the DNS line (replacing an earlier one).
    pub fn new_dns_line(&mut self)
        requires
            old(self)@.wf(),
        ensures
            final(self)@.wf(),
            old(self)@.has(DNS_ID) ==> final(self)@ == old(self)@.with_line(
                old(self)@.index_of(DNS_ID),
                AnyLineView::Dns(DnsView { query_result: Seq::empty() }),
            ),
            !old(self)@.has(DNS_ID) ==> final(self)@ == (GateView {
                lines: old(self)@.lines.push(AnyLineView::Dns(DnsView { query_result: Seq::empty() })),
                ..old(self)@
            }),
    {
        let line = LineDns::new();
        match self.find(DNS_ID) {
            Some(i) => {
                self.lines.set(i, AnyLine::Dns(line));
                assert(self@.lines =~= old(self)@.lines.update(i as int, AnyLineView::Dns(line@)));
                assert forall|a: int, b: int|
                    0 <= a < self@.lines.len() && 0 <= b < self@.lines.len() && a != b implies #[trigger] self@.lines[a].id()
                    != #[trigger] self@.lines[b].id() by {
                    assert(old(self)@.lines[a].id() != old(self)@.lines[b].id());
                }
            },
            None => {
                self.lines.push(AnyLine::Dns(line));
                assert(self@.lines =~= old(self)@.lines.push(AnyLineView::Dns(line@)));
            },
        }
    }

    /// Adds a line to the remote gateway; returns its id.
    pub fn new_hk_line(&mut self) -> (r: u64)
        requires
            old(self)@.wf(),
            old(self)@.last_id < u64::MAX,
        ensures
            r == old(self)@.last_id + 1,
            final(self)@ == old(self)@.add_line(hk_view(r)),
            final(self)@.wf(),
    {
        let id = self.next_id();
        let line = LineTcp2Vps::new(id);
        self.push_new(AnyLine::Tcp2Vps(line));
        id
    }

    /// Adds a SOCKS5 client line relayed through line `pair_id`; returns its id.
    pub fn new_pc_line(&mut self, pair_id: u64) -> (r: u64)
        requires
            old(self)@.wf(),
            old(self)@.last_id < u64::MAX,
        ensures
            r == old(self)@.last_id + 1,
            final(self)@ == old(self)@.add_line(pc_view(r, pair_id)),
            final(self)@.wf(),
    {
        let id = self.next_id();
        let line = LinePc::new(id, pair_id);
        self.push_new(AnyLine::Pc(line));
        id
    }

    /// Adds a direct client line; returns its id and the heart beat to greet
    /// the client with.
    pub fn new_mainland_line(&mut self) -> (r: (u64, Option<Vec<u8>>))
        requires
            old(self)@.wf(),
            old(self)@.last_id < u64::MAX,
        ensures
            r.0 == old(self)@.last_id + 1,
            opt_bytes(r.1) == Some(spec_be_bytes(r.0)),
            final(self)@ == old(self)@.add_line(mainland_view(r.0)),
            final(self)@.wf(),
    {
        let id = self.next_id();
        let line = LineMainLand::new(id);
        let greeting = line.send_heart_beat();
        self.push_new(AnyLine::MainLand(line));
        (id, greeting)
    }

    /// Adds an outgoing line for client line `pair_id`; returns its id.
    pub fn new_world_line(&mut self, pair_id: u64) -> (r: u64)
        requires
            old(self)@.wf(),
            old(self)@.last_id < u64::MAX,
        ensures
            r == old(self)@.last_id + 1,
            final(self)@ == old(self)@.add_line(world_view(r, pair_id)),
            final(self)@.wf(),
    {
        let id = self.next_id();
        let line = LineWorld::new(id, pair_id);
        self.push_new(AnyLine::World(line));
        id
    }
}

} // verus!
