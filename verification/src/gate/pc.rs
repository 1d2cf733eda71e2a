//! Tunnel lines to the remote gateway, and the SOCKS5 clients relayed
//! through them.
use vstd::prelude::*;
use crate::gate::{Gate, GateView, lemma_index_of};
use crate::gate::event::lemma_same_id_update;
use crate::gate::line_creater::{hk_view, pc_view};
use crate::line::any_line::{AnyLine, AnyLineView, lemma_id_stable};
use crate::line::pair::LinePair;
use crate::line::status::Status;
use crate::config::TCP_LIFE_TIME;

verus! {

/// A tunnel line that is ready to carry a client at time `now`.
pub open spec fn ready_hk(l: AnyLineView, now: i64) -> bool {
    l matches AnyLineView::Tcp2Vps(h) && h.is_ready_spec(now)
}

impl GateView {
    /// Position `k` holds the first ready tunnel line.
    pub open spec fn is_first_ready(self, now: i64, k: int) -> bool {
        &&& 0 <= k < self.lines.len()
        &&& ready_hk(self.lines[k], now)
        &&& forall|j: int| 0 <= j < k ==> !ready_hk(#[trigger] self.lines[j], now)
    }

    /// The id of the first ready tunnel line in table order, 0 when none is
    /// ready.
    pub open spec fn idle_hk(self, now: i64) -> u64 {
        if exists|k: int| self.is_first_ready(now, k) {
            self.lines[choose|k: int| self.is_first_ready(now, k)].id()
        } else {
            0
        }
    }

    /// The table after a SOCKS5 client arrives at time `now`, and the new
    /// client line's id: it is relayed through the first ready tunnel line,
    /// which takes it as its pair; without one nothing changes.
    pub open spec fn chick_for_pc(self, now: i64) -> (GateView, Option<u64>) {
        let chick = self.idle_hk(now);
        if chick == 0 {
            (self, None)
        } else {
            let pc = (self.last_id + 1) as u64;
            let g1 = self.add_line(pc_view(pc, chick));
            (g1.map_line(chick, AnyLine::with_pair_id(g1.line(chick), pc)), Some(pc))
        }
    }

    /// The table after `n` tunnel lines were added.
    pub open spec fn with_hk_lines(self, n: nat) -> GateView {
        GateView {
            lines: self.lines + Seq::new(n, |k: int| hk_view((self.last_id + 1 + k) as u64)),
            last_id: (self.last_id + n) as u64,
            ..self
        }
    }
}

/// Law: the tunnel line a SOCKS5 client is relayed through is a free,
/// established tunnel line that has heard from the remote side within
/// `TCP_LIFE_TIME` seconds, and it is the first such line in the table; when
/// there is none, the client is turned away and nothing changes.
pub proof fn lemma_chick_is_ready(g: GateView, now: i64)
    requires
        g.wf(),
    ensures
        g.idle_hk(now) != 0 ==> {
            &&& g.has(g.idle_hk(now))
            &&& g.line(g.idle_hk(now)) is Tcp2Vps
            &&& g.line(g.idle_hk(now)).status() == Status::Establish
            &&& g.line(g.idle_hk(now)).pair_id() == 0
            &&& now - g.line(g.idle_hk(now))->Tcp2Vps_0.last_recv_heart_beat <= TCP_LIFE_TIME
            &&& forall|j: int|
                0 <= j < g.index_of(g.idle_hk(now)) ==> !ready_hk(#[trigger] g.lines[j], now)
        },
        (forall|k: int| 0 <= k < g.lines.len() ==> !ready_hk(#[trigger] g.lines[k], now)) ==> g.chick_for_pc(
            now,
        ) == (g, None::<u64>),
{
    if exists|k: int| g.is_first_ready(now, k) {
        let k = choose|k: int| g.is_first_ready(now, k);
        lemma_index_of(g, k);
        g.lines[k]->Tcp2Vps_0.lemma_ready_only_established(now);
    }
}

/// The first ready tunnel line found by a scan is the one `idle_hk` names.
proof fn lemma_idle_hk(g: GateView, now: i64, i: int)
    requires
        0 <= i < g.lines.len(),
        ready_hk(g.lines[i], now),
        forall|j: int| 0 <= j < i ==> !ready_hk(#[trigger] g.lines[j], now),
    ensures
        g.idle_hk(now) == g.lines[i].id(),
{
    assert(g.is_first_ready(now, i));
    let k = choose|k: int| g.is_first_ready(now, k);
    if k < i {
        assert(!ready_hk(g.lines[k], now));
    }
    if k > i {
        assert(!ready_hk(g.lines[i], now));
    }
}

impl Gate {
    /// The id of the first tunnel line ready at time `now`, 0 when none is.
    pub fn find_idle_hk_chick(&self, now: i64) -> (r: u64)
        requires
            self@.wf(),
        ensures
            r == self@.idle_hk(now),
    {
        let n = self.lines.len();
        for i in 0..n
            invariant
                n == self@.lines.len(),
                forall|j: int| 0 <= j < i ==> !ready_hk(#[trigger] self@.lines[j], now),
        {
            assert(self@.lines[i as int] == self.lines@[i as int]@);
            match &self.lines[i] {
                AnyLine::Tcp2Vps(h) => {
                    if h.is_ready(now) {
                        proof {
                            lemma_idle_hk(self@, now, i as int);
                        }
                        return h.basic.id;
                    }
                },
                _ => {},
            }
        }
        proof {
            if exists|k: int| self@.is_first_ready(now, k) {
                let k = choose|k: int| self@.is_first_ready(now, k);
                assert(!ready_hk(self@.lines[k], now));
            }
        }
        0
    }

    /// A SOCKS5 client arrived at time `now`: relays it through the first
    /// ready tunnel line; returns the new client line's id, `None` when no
    /// tunnel line is ready (the client is turned away).
    pub fn find_chick_for_pc(&mut self, now: i64) -> (r: Option<u64>)
        requires
            old(self)@.wf(),
            old(self)@.last_id < u64::MAX,
        ensures
            (final(self)@, r) == old(self)@.chick_for_pc(now),
            final(self)@.wf(),
    {
        let chick_id = self.find_idle_hk_chick(now);
        if chick_id == 0 {
            return None;
        }
        proof {
            let k = choose|k: int| old(self)@.is_first_ready(now, k);
            assert(old(self)@.is_first_ready(now, k));
            lemma_index_of(old(self)@, k);
        }
        let id = self.new_pc_line(chick_id);
        let ghost g1 = self@;
        proof {
            let k = old(self)@.index_of(chick_id);
            assert(g1.lines[k] == old(self)@.lines[k]);
            lemma_index_of(g1, k);
        }
        let j = self.find(chick_id).unwrap();
        let ghost l2 = AnyLine::with_pair_id(g1.line(chick_id), id);
        assert(self@.lines[j as int] == self.lines@[j as int]@);
        self.lines[j].set_pair_id(id);
        proof {
            lemma_id_stable(g1.line(chick_id), crate::line::status::Status::Raw, id, Seq::empty(), 0);
            lemma_same_id_update(g1, j as int, l2);
        }
        assert(self@.lines =~= g1.lines.update(j as int, l2));
        Some(id)
    }

    /// Adds `n` tunnel lines to the remote gateway; returns their ids, each
    /// to be connected by the caller.
    pub fn create_tcp_2_vps_lines(&mut self, n: u8) -> (r: Vec<u64>)
        requires
            old(self)@.wf(),
            old(self)@.last_id + n <= u64::MAX,
        ensures
            final(self)@ == old(self)@.with_hk_lines(n as nat),
            final(self)@.wf(),
            r@ == Seq::new(n as nat, |k: int| (old(self)@.last_id + 1 + k) as u64),
    {
        let mut ids: Vec<u64> = Vec::new();
        for i in 0..n
            invariant
                self@.wf(),
                self@ == old(self)@.with_hk_lines(i as nat),
                old(self)@.last_id + n <= u64::MAX,
                ids@ == Seq::new(i as nat, |k: int| (old(self)@.last_id + 1 + k) as u64),
        {
            let ghost g0 = self@;
            let id = self.new_hk_line();
            ids.push(id);
            assert(self@.lines =~= old(self)@.with_hk_lines((i + 1) as nat).lines);
            assert(ids@ =~= Seq::new((i + 1) as nat, |k: int| (old(self)@.last_id + 1 + k) as u64));
        }
        ids
    }
}

} // verus!
