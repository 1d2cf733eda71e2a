//! Host-name lookups for the client lines, through the DNS line.
use vstd::prelude::*;
use crate::config::DNS_ID;
use crate::gate::{Gate, GateView, lemma_index_of};
use crate::gate::event::lemma_same_id_update;
use crate::gate::line_creater::world_view;
use crate::global::opt_bytes;
use crate::line::any_line::{AnyLine, AnyLineView};
use crate::line::base_line::BaseLine;
use crate::line::dns::{dns_query_packet, opt_text};
use crate::line::mainland::MainLandView;
use crate::line::mainland::network::Step as MainLandStep;
use crate::line::status::Status;
use crate::line::world::WorldView;
use crate::text::{socket_address, socket_address_text};

verus! {

/// A client line whose host still has to be looked up.
pub open spec fn collecting(l: AnyLineView) -> bool {
    l matches AnyLineView::MainLand(m) && m.step == MainLandStep::WaitingDnsCollect
}

/// The line after its lookup was sent.
pub open spec fn query_sent(l: AnyLineView) -> AnyLineView {
    match l {
        AnyLineView::MainLand(m) => if m.step == MainLandStep::WaitingDnsCollect {
            AnyLineView::MainLand(MainLandView { step: MainLandStep::WaitingDnsResult, ..m })
        } else {
            l
        },
        _ => l,
    }
}

/// The lookups to send: each collecting client line's id and host.
pub open spec fn dns_names(s: Seq<AnyLineView>) -> Seq<(u64, Seq<char>)>
    decreases s.len(),
{
    if s.len() == 0 {
        Seq::empty()
    } else if collecting(s.last()) {
        dns_names(s.drop_last()).push((s.last().id(), s.last()->MainLand_0.peer_ip))
    } else {
        dns_names(s.drop_last())
    }
}

/// A lookup for client line `id`: the packet to send to the DNS server,
/// `None` when the host name cannot be put in a query.
pub struct DnsQuery {
    pub id: u64,
    pub packet: Option<Vec<u8>>,
}

impl View for DnsQuery {
    type V = (u64, Option<Seq<u8>>);

    open spec fn view(&self) -> (u64, Option<Seq<u8>>) {
        (self.id, opt_bytes(self.packet))
    }
}

/// The packets for the lookups `names`.
pub open spec fn query_packets(names: Seq<(u64, Seq<char>)>) -> Seq<(u64, Option<Seq<u8>>)> {
    names.map_values(|n: (u64, Seq<char>)| (n.0, dns_query_packet(n.0 as u16, n.1)))
}

/// An outgoing line to connect: its id and the `ip:port` to connect to.
pub struct Connect {
    pub world_id: u64,
    pub address: String,
}

impl View for Connect {
    type V = (u64, Seq<char>);

    open spec fn view(&self) -> (u64, Seq<char>) {
        (self.world_id, self.address@)
    }
}

impl GateView {
    /// Lookups can be sent: the DNS line is there for every collecting
    /// client line, whose id fits a DNS query id.
    pub open spec fn dns_queries_ok(self) -> bool {
        forall|i: int|
            0 <= i < self.lines.len() && collecting(#[trigger] self.lines[i]) ==> self.has(DNS_ID)
                && self.lines[i].id() <= u16::MAX
    }

    /// The answers waiting on the DNS line (none without one).
    pub open spec fn dns_results(self) -> Seq<(u64, Option<Seq<char>>)> {
        if self.has(DNS_ID) && self.line(DNS_ID) is Dns {
            self.line(DNS_ID)->Dns_0.query_result
        } else {
            Seq::empty()
        }
    }

    /// The table after answer `ret` for client line `id`, and the outgoing
    /// line to connect, if the host was found.
    pub open spec fn dns_result_step(self, id: u64, ret: Option<Seq<char>>) -> (GateView, Option<(u64, Seq<char>)>) {
        match ret {
            None => (self, None),
            Some(ip) => {
                let m = self.line(id)->MainLand_0;
                let addr = socket_address_text(ip, m.peer_port);
                let wid = (self.last_id + 1) as u64;
                let g1 = GateView {
                    lines: self.lines.update(
                        self.index_of(id),
                        AnyLineView::MainLand(MainLandView { pair_id: wid, step: MainLandStep::DnsQuerySuccess, ..m }),
                    ).push(
                        AnyLineView::World(
                            WorldView { basic: BaseLine { id: wid, status: Status::Raw }, pair_id: id, peer_address: addr },
                        ),
                    ),
                    last_id: wid,
                    ..self
                };
                (g1, Some((wid, addr)))
            },
        }
    }

    /// The answers `rs` taken from the last to the first.
    pub open spec fn dns_results_apply(self, rs: Seq<(u64, Option<Seq<char>>)>) -> (GateView, Seq<(u64, Seq<char>)>)
        decreases rs.len(),
    {
        if rs.len() == 0 {
            (self, Seq::empty())
        } else {
            let (g1, c1) = self.dns_result_step(rs.last().0, rs.last().1);
            let (g2, c2) = g1.dns_results_apply(rs.drop_last());
            (
                g2,
                match c1 {
                    Some(c) => seq![c] + c2,
                    None => c2,
                },
            )
        }
    }

    /// The answers can be taken: each is for a client line, and ids remain
    /// for the outgoing lines.
    pub open spec fn dns_results_ok(self) -> bool {
        &&& forall|k: int|
            0 <= k < self.dns_results().len() ==> self.has(#[trigger] self.dns_results()[k].0) && self.line(
                self.dns_results()[k].0,
            ) is MainLand
        &&& self.last_id + self.dns_results().len() <= u64::MAX
    }

    /// The table once the DNS line's answers were taken out.
    pub open spec fn dns_results_taken(self) -> GateView {
        if self.has(DNS_ID) && self.line(DNS_ID) is Dns {
            self.map_line(DNS_ID, AnyLineView::Dns(crate::line::dns::DnsView { query_result: Seq::empty() }))
        } else {
            self
        }
    }
}

pub open spec fn connects_view(v: Seq<Connect>) -> Seq<(u64, Seq<char>)> {
    v.map_values(|c: Connect| c@)
}

pub open spec fn queries_view(v: Seq<DnsQuery>) -> Seq<(u64, Option<Seq<u8>>)> {
    v.map_values(|q: DnsQuery| q@)
}

impl Gate {
    /// Whether lookups can be sent now (`dns_queries_ok`).
    pub fn dns_queries_ok(&self) -> (r: bool)
        requires
            self@.wf(),
        ensures
            r == self@.dns_queries_ok(),
    {
        let has_dns = self.has(DNS_ID);
        let n = self.lines.len();
        for i in 0..n
            invariant
                n == self@.lines.len(),
                self@.wf(),
                has_dns == self@.has(DNS_ID),
                forall|j: int|
                    0 <= j < i && collecting(#[trigger] self@.lines[j]) ==> self@.has(DNS_ID) && self@.lines[j].id()
                        <= u16::MAX,
        {
            assert(self@.lines[i as int] == self.lines@[i as int]@);
            match &self.lines[i] {
                AnyLine::MainLand(m) => {
                    if m.step == MainLandStep::WaitingDnsCollect && (!has_dns || m.basic.id > 65535) {
                        assert(collecting(self@.lines[i as int]));
                        return false;
                    }
                },
                _ => {},
            }
        }
        true
    }

    /// Whether the DNS line's answers can be taken now (`dns_results_ok`).
    pub fn dns_results_ok(&self) -> (r: bool)
        requires
            self@.wf(),
        ensures
            r == self@.dns_results_ok(),
    {
        let ghost rs = self@.dns_results();
        match self.find(DNS_ID) {
            Some(d) => {
                assert(self@.lines[d as int] == self.lines@[d as int]@);
                match &self.lines[d] {
                    AnyLine::Dns(dns) => {
                        let m = dns.query_result.len();
                        assert(rs.len() == m);
                        if self.last_id() > u64::MAX - (m as u64) {
                            return false;
                        }
                        for k in 0..m
                            invariant
                                m == rs.len(),
                                self@.wf(),
                                rs == self@.dns_results(),
                                dns.query_result@.map_values(|p: (u64, Option<String>)| (p.0, opt_text(p.1))) == rs,
                                forall|q: int|
                                    0 <= q < k ==> self@.has(#[trigger] rs[q].0) && self@.line(rs[q].0) is MainLand,
                        {
                            let id = dns.query_result[k].0;
                            assert(id == rs[k as int].0);
                            match self.find(id) {
                                Some(j) => {
                                    assert(self@.lines[j as int] == self.lines@[j as int]@);
                                    match &self.lines[j] {
                                        AnyLine::MainLand(_) => {},
                                        _ => {
                                            return false;
                                        },
                                    }
                                },
                                None => {
                                    return false;
                                },
                            }
                        }
                        true
                    },
                    _ => {
                        true
                    },
                }
            },
            None => {
                true
            },
        }
    }
}

impl Gate {
    /// Sends a lookup for each client line that announced its host.
    pub fn gather_dns_query(&mut self) -> (r: Vec<DnsQuery>)
        requires
            old(self)@.wf(),
            old(self)@.dns_queries_ok(),
        ensures
            final(self)@ == (GateView { lines: old(self)@.lines.map_values(|l: AnyLineView| query_sent(l)), ..old(self)@ }),
            final(self)@.wf(),
            queries_view(r@) == query_packets(dns_names(old(self)@.lines)),
            dns_names(final(self)@.lines).len() == 0,
    {
        let ghost s = old(self)@.lines;
        let mut names: Vec<(u64, String)> = Vec::new();
        let n = self.lines.len();
        for i in 0..n
            invariant
                n == s.len(),
                self@.lines.len() == n,
                self@.frame == old(self)@.frame,
                self@.last_id == old(self)@.last_id,
                forall|j: int| 0 <= j < i ==> #[trigger] self@.lines[j] == query_sent(s[j]),
                forall|j: int| i <= j < n ==> #[trigger] self@.lines[j] == s[j],
                names@.map_values(|p: (u64, String)| (p.0, p.1@)) == dns_names(s.take(i as int)),
        {
            assert(s.take(i + 1).drop_last() =~= s.take(i as int));
            assert(self@.lines[i as int] == self.lines@[i as int]@);
            let ghost before = self@.lines;
            let ghost n0 = names@;
            match &mut self.lines[i] {
                AnyLine::MainLand(m) => {
                    if m.step == MainLandStep::WaitingDnsCollect {
                        names.push((m.basic.id, m.peer_ip.clone()));
                        m.step = MainLandStep::WaitingDnsResult;
                        assert(names@.map_values(|p: (u64, String)| (p.0, p.1@)) =~= n0.map_values(
                            |p: (u64, String)| (p.0, p.1@),
                        ).push((s[i as int].id(), s[i as int]->MainLand_0.peer_ip)));
                    }
                },
                _ => {},
            }
            assert(self@.lines =~= before.update(i as int, query_sent(s[i as int])));
        }
        assert(s.take(n as int) =~= s);
        assert(self@.lines =~= s.map_values(|l: AnyLineView| query_sent(l)));
        proof {
            let g1 = self@;
            assert forall|a: int, b: int|
                0 <= a < g1.lines.len() && 0 <= b < g1.lines.len() && a != b implies #[trigger] g1.lines[a].id()
                != #[trigger] g1.lines[b].id() by {
                assert(s[a].id() != s[b].id());
            }
            assert forall|a: int| 0 <= a < g1.lines.len() implies g1.lines[a] is Dns || (10 < #[trigger] g1.lines[a].id() <= g1.last_id) by {
                assert(s[a].id() == old(self)@.lines[a].id());
            }
            lemma_dns_names_from(s);
            assert forall|q: int| 0 <= q < dns_names(s).len() implies #[trigger] dns_names(s)[q].0 <= u16::MAX
                && g1.has(DNS_ID) by {
                assert(is_collecting_id(s, dns_names(s)[q].0));
                let i = choose|i: int| 0 <= i < s.len() && collecting(s[i]) && s[i].id() == dns_names(s)[q].0;
                assert(collecting(old(self)@.lines[i]));
                let dk = old(self)@.index_of(DNS_ID);
                assert(g1.lines[dk].id() == DNS_ID);
            }
            if dns_names(s).len() > 0 {
                assert(dns_names(s)[0].0 <= u16::MAX);
            }
        }
        let ghost nv = names@.map_values(|p: (u64, String)| (p.0, p.1@));
        let mut queries: Vec<DnsQuery> = Vec::new();
        let m = names.len();
        for k in 0..m
            invariant
                m == names@.len(),
                self@.wf(),
                nv == names@.map_values(|p: (u64, String)| (p.0, p.1@)),
                nv == dns_names(s),
                nv.len() == m,
                forall|q: int| 0 <= q < nv.len() ==> #[trigger] nv[q].0 <= u16::MAX,
                nv.len() > 0 ==> self@.has(DNS_ID),
                queries_view(queries@) == query_packets(nv.take(k as int)),
        {
            assert(nv.take(k + 1) =~= nv.take(k as int).push(nv[k as int]));
            assert(nv[k as int] == (names@[k as int].0, names@[k as int].1@));
            assert(nv[k as int].0 <= u16::MAX);
            let id = names[k].0;
            let host = names[k].1.clone();
            let j = self.find(DNS_ID).unwrap();
            assert(self@.lines[j as int] == self.lines@[j as int]@);
            assert(self@.lines[j as int] is Dns);
            let packet = match &self.lines[j] {
                AnyLine::Dns(d) => d.new_dns_query(id, host),
                _ => None,
            };
            let ghost q0 = queries@;
            queries.push(DnsQuery { id, packet });
            assert(queries_view(queries@) =~= queries_view(q0).push((id, dns_query_packet(id as u16, nv[k as int].1))));
        }
        assert(nv.take(m as int) =~= nv);
        proof {
            lemma_no_collecting(self@.lines);
        }
        queries
    }
}

/// Once every lookup was sent no client line is collecting, so there is
/// nothing left to send.
proof fn lemma_no_collecting(s: Seq<AnyLineView>)
    requires
        forall|i: int| 0 <= i < s.len() ==> !collecting(#[trigger] s[i]),
    ensures
        dns_names(s).len() == 0,
    decreases s.len(),
{
    if s.len() > 0 {
        let t = s.drop_last();
        assert forall|i: int| 0 <= i < t.len() implies !collecting(#[trigger] t[i]) by {
            assert(t[i] == s[i]);
        }
        lemma_no_collecting(t);
        assert(!collecting(s[s.len() - 1]));
    }
}

/// `id` is a collecting client line of `s`.
pub open spec fn is_collecting_id(s: Seq<AnyLineView>, id: u64) -> bool {
    exists|i: int| 0 <= i < s.len() && collecting(s[i]) && s[i].id() == id
}

/// Each lookup is for a collecting client line of the table.
proof fn lemma_dns_names_from(s: Seq<AnyLineView>)
    ensures
        forall|k: int| 0 <= k < dns_names(s).len() ==> is_collecting_id(s, #[trigger] dns_names(s)[k].0),
    decreases s.len(),
{
    if s.len() > 0 {
        let t = s.drop_last();
        lemma_dns_names_from(t);
        assert forall|k: int| 0 <= k < dns_names(s).len() implies is_collecting_id(s, #[trigger] dns_names(s)[k].0) by {
            if k < dns_names(t).len() {
                assert(dns_names(s)[k] == dns_names(t)[k]);
                assert(is_collecting_id(t, dns_names(t)[k].0));
                let i = choose|i: int| 0 <= i < t.len() && collecting(t[i]) && t[i].id() == dns_names(t)[k].0;
                assert(s[i] == t[i]);
            } else {
                let i = s.len() - 1;
                assert(s[i] == s.last());
            }
        }
    }
}

pub open spec fn opt_connect(c: Option<Connect>) -> Option<(u64, Seq<char>)> {
    match c {
        Some(x) => Some(x@),
        None => None,
    }
}

/// One answer keeps the table well formed and every client line in place.
proof fn lemma_dns_result_step(g: GateView, id: u64, ret: Option<Seq<char>>)
    requires
        g.wf(),
        g.has(id),
        g.line(id) is MainLand,
        g.last_id < u64::MAX,
    ensures
        g.dns_result_step(id, ret).0.wf(),
        g.dns_result_step(id, ret).0.last_id <= g.last_id + 1,
        g.dns_result_step(id, ret).0.last_id >= g.last_id,
        forall|x: u64|
            g.has(x) ==> #[trigger] g.dns_result_step(id, ret).0.has(x) && (g.line(x) is MainLand ==> g.dns_result_step(
                id,
                ret,
            ).0.line(x) is MainLand),
{
    let g2 = g.dns_result_step(id, ret).0;
    if let Some(ip) = ret {
        let m = g.line(id)->MainLand_0;
        let wid = (g.last_id + 1) as u64;
        let i = g.index_of(id);
        let ml = AnyLineView::MainLand(MainLandView { pair_id: wid, step: MainLandStep::DnsQuerySuccess, ..m });
        lemma_same_id_update(g, i, ml);
        let g1 = g.with_line(i, ml);
        let w = g2.lines.last();
        assert(g2.lines == g1.lines.push(w));
        assert forall|a: int, b: int|
            0 <= a < g2.lines.len() && 0 <= b < g2.lines.len() && a != b implies #[trigger] g2.lines[a].id()
            != #[trigger] g2.lines[b].id() by {
            if a < g1.lines.len() && b < g1.lines.len() {
                assert(g1.lines[a].id() != g1.lines[b].id());
            } else if a < g1.lines.len() {
                assert(g1.lines[a] is Dns || g1.lines[a].id() <= g.last_id);
            } else {
                assert(g1.lines[b] is Dns || g1.lines[b].id() <= g.last_id);
            }
        }
        assert forall|a: int| 0 <= a < g2.lines.len() implies g2.lines[a] is Dns || (10 < #[trigger] g2.lines[a].id()
            <= g2.last_id) by {
            if a < g1.lines.len() {
                assert(g1.lines[a] is Dns || (10 < g1.lines[a].id() <= g1.last_id));
            }
        }
        assert forall|x: u64| g.has(x) implies #[trigger] g2.has(x) && (g.line(x) is MainLand ==> g2.line(x) is MainLand) by {
            let k = g1.index_of(x);
            assert(g1.has(x));
            assert(g2.lines[k] == g1.lines[k]);
            lemma_index_of(g2, k);
            if k == i {
            } else {
                assert(g1.lines[k] == g.lines[k]);
            }
        }
    }
}

impl Gate {
    /// The answer `ret` for client line `id`: when the host was found, an
    /// outgoing line is created for it; returns what to connect.
    fn on_dns_result(&mut self, id: u64, ret: Option<String>) -> (r: Option<Connect>)
        requires
            old(self)@.wf(),
            old(self)@.has(id),
            old(self)@.line(id) is MainLand,
            old(self)@.last_id < u64::MAX,
        ensures
            (final(self)@, opt_connect(r)) == old(self)@.dns_result_step(id, opt_text(ret)),
            final(self)@.wf(),
    {
        let i = self.find(id).unwrap();
        assert(self@.lines[i as int] == self.lines@[i as int]@);
        let (host_name, port) = match &self.lines[i] {
            AnyLine::MainLand(m) => (m.peer_ip.clone(), m.peer_port),
            _ => (String::new(), 0),
        };
        proof {
            lemma_dns_result_step(old(self)@, id, opt_text(ret));
        }
        match ret {
            Some(ip) => {
                let ghost m0 = old(self)@.lines[i as int]->MainLand_0;
                let ip_address = socket_address(&ip, port);
                let world_id = self.new_world_line(id);
                let ghost ml = AnyLineView::MainLand(
                    MainLandView { pair_id: world_id, step: MainLandStep::DnsQuerySuccess, ..m0 },
                );
                let ghost wl = AnyLineView::World(
                    WorldView {
                        basic: BaseLine { id: world_id, status: Status::Raw },
                        pair_id: id,
                        peer_address: ip_address@,
                    },
                );
                let ghost g1 = self@;
                assert(g1.lines[i as int] == old(self)@.lines[i as int]);
                assert(self@.lines[i as int] == self.lines@[i as int]@);
                match &mut self.lines[i] {
                    AnyLine::MainLand(m) => m.dns_query_success(world_id),
                    _ => {},
                }
                assert(self@.lines[i as int] == self.lines@[i as int]@);
                assert(self@.lines[i as int] == ml);
                let j = self.lines.len() - 1;
                let ghost g2 = self@;
                assert(g2.lines =~= g1.lines.update(i as int, ml));
                assert(self@.lines[j as int] == self.lines@[j as int]@);
                assert(self@.lines[j as int] == world_view(world_id, id));
                let address = ip_address.clone();
                match &mut self.lines[j] {
                    AnyLine::World(w) => {
                        w.set_peer_address(host_name);
                        w.set_peer_address(ip_address);
                    },
                    _ => {},
                }
                assert(self@.lines[j as int] == self.lines@[j as int]@);
                assert(self@.lines[j as int] == wl);
                assert(self@.lines =~= g2.lines.update(j as int, wl));
                assert(self@.lines =~= old(self)@.lines.update(i as int, ml).push(wl));
                assert(self@.lines =~= old(self)@.dns_result_step(id, opt_text(Some(ip))).0.lines);
                Some(Connect { world_id, address })
            },
            None => {
                match &mut self.lines[i] {
                    AnyLine::MainLand(m) => m.dns_query_fail(),
                    _ => {},
                }
                assert(self@.lines =~= old(self)@.lines);
                None
            },
        }
    }

    /// Takes the answers the DNS line collected, from the newest to the
    /// oldest; returns the outgoing lines to connect.
    pub fn check_dns_result(&mut self) -> (r: Vec<Connect>)
        requires
            old(self)@.wf(),
            old(self)@.dns_results_ok(),
        ensures
            (final(self)@, connects_view(r@)) == old(self)@.dns_results_taken().dns_results_apply(
                old(self)@.dns_results(),
            ),
            final(self)@.wf(),
    {
        let ghost rs = old(self)@.dns_results();
        let mut connects: Vec<Connect> = Vec::new();
        match self.find(DNS_ID) {
            Some(d) => {
                assert(self@.lines[d as int] == self.lines@[d as int]@);
                assert(self@.lines[d as int] is Dns);
                let ghost od = old(self)@.lines[d as int]->Dns_0.query_result;
                assert(rs == od);
                let mut data = match &mut self.lines[d] {
                    AnyLine::Dns(dns) => dns.move_out_dns_result(),
                    _ => Vec::new(),
                };
                let ghost g0 = self@;
                let ghost empty = AnyLineView::Dns(crate::line::dns::DnsView { query_result: Seq::empty() });
                proof {
                    assert(self@.lines[d as int] == self.lines@[d as int]@);
                    assert(self@.lines[d as int] is Dns);
                    assert(self@.lines[d as int]->Dns_0.query_result =~= Seq::empty());
                    assert(self@.lines =~= old(self)@.lines.update(d as int, empty));
                    lemma_same_id_update(old(self)@, d as int, empty);
                    assert forall|x: u64| old(self)@.has(x) && old(self)@.line(x) is MainLand implies #[trigger] g0.has(x)
                        && g0.line(x) is MainLand by {
                        let k = old(self)@.index_of(x);
                        assert(g0.index_of(x) == k);
                    }
                }
                let n = data.len();
                let mut k = n;
                assert(rs.take(n as int) =~= rs);
                assert(connects_view(connects@) =~= Seq::empty());
                while k > 0
                    invariant
                        k <= n,
                        rs.len() == n,
                        data@.len() == k,
                        data@.map_values(|p: (u64, Option<String>)| (p.0, opt_text(p.1))) == rs.take(k as int),
                        self@.wf(),
                        self@.last_id + k <= u64::MAX,
                        forall|q: int| 0 <= q < k ==> self@.has(#[trigger] rs[q].0) && self@.line(rs[q].0) is MainLand,
                        ({
                            let (gf, cf) = self@.dns_results_apply(rs.take(k as int));
                            (gf, connects_view(connects@) + cf)
                        }) == g0.dns_results_apply(rs),
                    decreases k,
                {
                    let ghost before = self@;
                    let ghost c0 = connects@;
                    let ghost d0 = data@;
                    assert(rs.take(k as int).drop_last() =~= rs.take(k - 1));
                    let (id, ip) = data.pop().unwrap();
                    assert(d0.map_values(|p: (u64, Option<String>)| (p.0, opt_text(p.1)))[k - 1] == rs.take(k as int)[k - 1]);
                    assert(data@.map_values(|p: (u64, Option<String>)| (p.0, opt_text(p.1))) =~= rs.take(k - 1));
                    assert((id, opt_text(ip)) == rs[k - 1]);
                    assert(self@.has(rs[k - 1].0));
                    proof {
                        lemma_dns_result_step(before, id, opt_text(ip));
                    }
                    let c = self.on_dns_result(id, ip);
                    match c {
                        Some(x) => {
                            connects.push(x);
                            assert(connects_view(connects@) =~= connects_view(c0).push(x@));
                        },
                        None => {},
                    }
                    k = k - 1;
                    proof {
                        let (gf, cf) = self@.dns_results_apply(rs.take(k as int));
                        match opt_connect(c) {
                            Some(cc) => {
                                assert(connects_view(connects@) + cf =~= connects_view(c0) + (seq![cc] + cf));
                            },
                            None => {},
                        }
                    }
                }
                assert(rs.take(0) =~= Seq::<(u64, Option<Seq<char>>)>::empty());
                assert(connects_view(connects@) + Seq::empty() =~= connects_view(connects@));
                assert(g0 == old(self)@.dns_results_taken());
                connects
            },
            None => {
                assert(rs.len() == 0);
                assert(connects_view(connects@) =~= Seq::empty());
                connects
            },
        }
    }
}

} // verus!
