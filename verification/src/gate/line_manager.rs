//! Periodic housekeeping over the gateway's table of lines.
use vstd::prelude::*;
use crate::gate::{Gate, GateView, Send, lemma_index_of};
use crate::gate::event::lemma_same_id_update;
use crate::line::any_line::{AnyLine, AnyLineView, lemma_id_stable, lemma_pair_closed_frees};
use crate::line::event::LineEvent;
use crate::line::mainland::network::Step as MainLandStep;
use crate::line::network::{LineNetWork, may_send};
use crate::line::pair::LinePair;
use crate::line::status::{LineStatus, Status};
use crate::line::tcp2vps::LineTcp2Vps;

verus! {

/// How many of the lines satisfy `p`.
pub open spec fn count_where(s: Seq<AnyLineView>, p: spec_fn(AnyLineView) -> bool) -> nat
    decreases s.len(),
{
    if s.len() == 0 {
        0
    } else {
        count_where(s.drop_last(), p) + if p(s.last()) { 1nat } else { 0nat }
    }
}

/// The lines that are not dead, in table order.
pub open spec fn live_lines(s: Seq<AnyLineView>) -> Seq<AnyLineView>
    decreases s.len(),
{
    if s.len() == 0 {
        s
    } else if s.last().status() == Status::Dead {
        live_lines(s.drop_last())
    } else {
        live_lines(s.drop_last()).push(s.last())
    }
}

/// The ids of the dead lines, in table order.
pub open spec fn dead_ids(s: Seq<AnyLineView>) -> Seq<u64>
    decreases s.len(),
{
    if s.len() == 0 {
        Seq::empty()
    } else if s.last().status() == Status::Dead {
        dead_ids(s.drop_last()).push(s.last().id())
    } else {
        dead_ids(s.drop_last())
    }
}

/// A line to the remote gateway that is still alive.
pub open spec fn is_hk(l: AnyLineView) -> bool {
    l is Tcp2Vps && l.status() != Status::Dead
}

pub open spec fn hk_ready(now: i64) -> spec_fn(AnyLineView) -> bool {
    |l: AnyLineView| is_hk(l) && l->Tcp2Vps_0.is_ready_spec(now)
}

pub open spec fn hk_working(now: i64) -> spec_fn(AnyLineView) -> bool {
    |l: AnyLineView| is_hk(l) && !l->Tcp2Vps_0.is_ready_spec(now) && l->Tcp2Vps_0.pair_id > 0
}

pub open spec fn hk_timeout(now: i64) -> spec_fn(AnyLineView) -> bool {
    |l: AnyLineView|
        is_hk(l) && !l->Tcp2Vps_0.is_ready_spec(now) && l->Tcp2Vps_0.pair_id == 0
            && l->Tcp2Vps_0.tcp_timeout_spec(now)
}

pub open spec fn hk_not_establish(now: i64) -> spec_fn(AnyLineView) -> bool {
    |l: AnyLineView|
        is_hk(l) && !l->Tcp2Vps_0.is_ready_spec(now) && l->Tcp2Vps_0.pair_id == 0
            && !l->Tcp2Vps_0.tcp_timeout_spec(now) && l.status() != Status::Establish
}

/// What `clear_dead_line` found: the ids of the lines removed, and a census
/// of the lines to the remote gateway, with whether it is worth logging.
pub struct DeadReport {
    pub dead: Vec<u64>,
    pub hk: usize,
    pub not_establish: usize,
    pub timeout: usize,
    pub working: usize,
    pub ready: usize,
    pub should_log: bool,
}

proof fn lemma_count_step(s: Seq<AnyLineView>, i: int, p: spec_fn(AnyLineView) -> bool)
    requires
        0 <= i < s.len(),
    ensures
        count_where(s.take(i + 1), p) == count_where(s.take(i), p) + if p(s[i]) { 1nat } else { 0nat },
        count_where(s.take(i + 1), p) <= i + 1,
    decreases i,
{
    assert(s.take(i + 1).drop_last() =~= s.take(i));
    if i > 0 {
        lemma_count_step(s, i - 1, p);
    }
}

/// Every line kept is a line of the table.
proof fn lemma_live_lines_from(s: Seq<AnyLineView>)
    ensures
        forall|k: int| 0 <= k < live_lines(s).len() ==> s.contains(#[trigger] live_lines(s)[k]),
        forall|k: int| 0 <= k < live_lines(s).len() ==> #[trigger] live_lines(s)[k].status() != Status::Dead,
        live_lines(s).len() <= s.len(),
    decreases s.len(),
{
    if s.len() > 0 {
        let t = s.drop_last();
        lemma_live_lines_from(t);
        assert forall|k: int| 0 <= k < live_lines(s).len() implies s.contains(#[trigger] live_lines(s)[k]) by {
            if k < live_lines(t).len() {
                let x = live_lines(t)[k];
                assert(t.contains(x));
                let j = choose|j: int| 0 <= j < t.len() && t[j] == x;
                assert(s[j] == x);
            } else {
                assert(s[s.len() - 1] == s.last());
            }
        }
    }
}

/// Law: clearing out the dead lines removes exactly the dead lines: every
/// line that is not dead stays, every line that stays is not dead, and the
/// ids reported are those of the dead lines, one for each.
pub proof fn lemma_clear_removes_only_dead(s: Seq<AnyLineView>)
    ensures
        forall|i: int| 0 <= i < s.len() && #[trigger] s[i].status() != Status::Dead ==> live_lines(s).contains(s[i]),
        forall|k: int|
            0 <= k < live_lines(s).len() ==> #[trigger] live_lines(s)[k].status() != Status::Dead && s.contains(
                live_lines(s)[k],
            ),
        forall|i: int| 0 <= i < s.len() && #[trigger] s[i].status() == Status::Dead ==> dead_ids(s).contains(s[i].id()),
        live_lines(s).len() + dead_ids(s).len() == s.len(),
    decreases s.len(),
{
    lemma_live_lines_from(s);
    if s.len() > 0 {
        let t = s.drop_last();
        lemma_clear_removes_only_dead(t);
        let last = s.last();
        assert forall|i: int| 0 <= i < s.len() && #[trigger] s[i].status() != Status::Dead implies live_lines(
            s,
        ).contains(s[i]) by {
            if i < s.len() - 1 {
                assert(s[i] == t[i]);
                assert(live_lines(t).contains(t[i]));
                let j = choose|j: int| 0 <= j < live_lines(t).len() && live_lines(t)[j] == t[i];
                assert(live_lines(s)[j] == t[i]);
            } else {
                assert(s[i] == last);
                assert(live_lines(s) == live_lines(t).push(last));
                assert(live_lines(s)[live_lines(t).len() as int] == last);
            }
        }
        assert forall|i: int| 0 <= i < s.len() && #[trigger] s[i].status() == Status::Dead implies dead_ids(
            s,
        ).contains(s[i].id()) by {
            if i < s.len() - 1 {
                assert(s[i] == t[i]);
                assert(dead_ids(t).contains(t[i].id()));
                let j = choose|j: int| 0 <= j < dead_ids(t).len() && dead_ids(t)[j] == t[i].id();
                assert(dead_ids(s)[j] == t[i].id());
            } else {
                assert(s[i] == last);
                assert(dead_ids(s) == dead_ids(t).push(last.id()));
                assert(dead_ids(s)[dead_ids(t).len() as int] == last.id());
            }
        }
    }
}

/// Keeping only the live lines keeps the ids distinct and issued.
proof fn lemma_live_lines_wf(g: GateView)
    requires
        g.wf(),
    ensures
        (GateView { lines: live_lines(g.lines), ..g }).wf(),
    decreases g.lines.len(),
{
    let s = g.lines;
    lemma_live_lines_from(s);
    if s.len() > 0 {
        let t = s.drop_last();
        let gt = GateView { lines: t, ..g };
        assert(gt.wf()) by {
            assert forall|a: int, b: int|
                0 <= a < t.len() && 0 <= b < t.len() && a != b implies #[trigger] t[a].id() != #[trigger] t[b].id() by {
                assert(s[a].id() != s[b].id());
            }
            assert forall|a: int| 0 <= a < t.len() implies t[a] is Dns || (10 < #[trigger] t[a].id() <= g.last_id) by {
                assert(s[a].id() == t[a].id());
            }
        }
        lemma_live_lines_wf(gt);
        lemma_live_lines_from(t);
        let l = live_lines(s);
        if s.last().status() != Status::Dead {
            assert forall|a: int, b: int|
                0 <= a < l.len() && 0 <= b < l.len() && a != b implies #[trigger] l[a].id() != #[trigger] l[b].id() by {
                if a < l.len() - 1 && b < l.len() - 1 {
                    assert(l[a] == live_lines(t)[a]);
                    assert(l[b] == live_lines(t)[b]);
                    let lt = GateView { lines: live_lines(t), ..gt };
                    assert(lt.wf());
                    assert(lt.lines[a].id() != lt.lines[b].id());
                } else if a == l.len() - 1 {
                    let x = live_lines(t)[b];
                    assert(l[b] == x);
                    assert(l[a] == s.last());
                    assert(t.contains(x));
                    let j = choose|j: int| 0 <= j < t.len() && t[j] == x;
                    assert(s[j] == t[j]);
                    assert(s[j].id() != s[s.len() - 1].id());
                } else {
                    let x = live_lines(t)[a];
                    assert(l[a] == x);
                    assert(l[b] == s.last());
                    assert(t.contains(x));
                    let j = choose|j: int| 0 <= j < t.len() && t[j] == x;
                    assert(s[j] == t[j]);
                    assert(s[j].id() != s[s.len() - 1].id());
                }
            }
        }
        assert forall|a: int| 0 <= a < l.len() implies l[a] is Dns || (10 < #[trigger] l[a].id() <= g.last_id) by {
            let x = l[a];
            assert(s.contains(x));
            let j = choose|j: int| 0 <= j < s.len() && s[j] == x;
            assert(s[j].id() == x.id());
        }
    }
}

impl Gate {
    /// Removes the dead lines, at time `now`; reports what it removed and
    /// the state of the lines to the remote gateway.
    pub fn clear_dead_line(&mut self, now: i64) -> (r: DeadReport)
        requires
            old(self)@.wf(),
        ensures
            final(self)@ == (GateView { lines: live_lines(old(self)@.lines), ..old(self)@ }),
            final(self)@.wf(),
            forall|k: int| 0 <= k < final(self)@.lines.len() ==> #[trigger] final(self)@.lines[k].status() != Status::Dead,
            forall|i: int|
                0 <= i < old(self)@.lines.len() && #[trigger] old(self)@.lines[i].status() != Status::Dead
                    ==> final(self)@.lines.contains(old(self)@.lines[i]),
            r.dead@ == dead_ids(old(self)@.lines),
            r.hk == count_where(old(self)@.lines, |l: AnyLineView| is_hk(l)),
            r.ready == count_where(old(self)@.lines, hk_ready(now)),
            r.working == count_where(old(self)@.lines, hk_working(now)),
            r.timeout == count_where(old(self)@.lines, hk_timeout(now)),
            r.not_establish == count_where(old(self)@.lines, hk_not_establish(now)),
            r.should_log == (old(self)@.frame > 100 && r.hk > 1 && r.ready < 20),
    {
        let ghost s = old(self)@.lines;
        let n = self.lines.len();
        let mut hk: usize = 0;
        let mut not_establish: usize = 0;
        let mut working: usize = 0;
        let mut ready: usize = 0;
        let mut timeout: usize = 0;
        for i in 0..n
            invariant
                n == self.lines@.len(),
                self@ == old(self)@,
                s == self@.lines,
                hk == count_where(s.take(i as int), |l: AnyLineView| is_hk(l)),
                ready == count_where(s.take(i as int), hk_ready(now)),
                working == count_where(s.take(i as int), hk_working(now)),
                timeout == count_where(s.take(i as int), hk_timeout(now)),
                not_establish == count_where(s.take(i as int), hk_not_establish(now)),
        {
            proof {
                lemma_count_step(s, i as int, |l: AnyLineView| is_hk(l));
                lemma_count_step(s, i as int, hk_ready(now));
                lemma_count_step(s, i as int, hk_working(now));
                lemma_count_step(s, i as int, hk_timeout(now));
                lemma_count_step(s, i as int, hk_not_establish(now));
            }
            assert(s[i as int] == self.lines@[i as int]@);
            let st = self.lines[i].status();
            if st != Status::Dead {
                match &self.lines[i] {
                    AnyLine::Tcp2Vps(h) => {
                        hk = hk + 1;
                        if h.is_ready(now) {
                            ready = ready + 1;
                        } else {
                            if h.pair_id > 0 {
                                working = working + 1;
                            } else if h.tcp_timeout(now) {
                                timeout = timeout + 1;
                            } else if st != Status::Establish {
                                not_establish = not_establish + 1;
                            }
                        }
                    },
                    _ => {},
                }
            }
        }
        assert(s.take(n as int) =~= s);
        let should_log = self.global.frame() > 100 && hk > 1 && ready < 20;
        let dead = self.remove_dead_lines();
        proof {
            lemma_live_lines_from(s);
            lemma_clear_removes_only_dead(s);
        }
        DeadReport { dead, hk, not_establish, timeout, working, ready, should_log }
    }

    fn remove_dead_lines(&mut self) -> (r: Vec<u64>)
        requires
            old(self)@.wf(),
        ensures
            final(self)@ == (GateView { lines: live_lines(old(self)@.lines), ..old(self)@ }),
            final(self)@.wf(),
            r@ == dead_ids(old(self)@.lines),
    {
        let ghost s = old(self)@.lines;
        let mut dead: Vec<u64> = Vec::new();
        let mut i: usize = 0;
        let ghost mut k: int = 0;
        while i < self.lines.len()
            invariant
                0 <= i <= k <= s.len(),
                self@.lines.len() == i + (s.len() - k),
                self@.lines.subrange(0, i as int) == live_lines(s.take(k)),
                self@.lines.subrange(i as int, self@.lines.len() as int) == s.skip(k),
                dead@ == dead_ids(s.take(k)),
                self@.frame == old(self)@.frame,
                self@.last_id == old(self)@.last_id,
            decreases self@.lines.len() - i,
        {
            assert(s.take(k + 1).drop_last() =~= s.take(k));
            let ghost rest = self@.lines.subrange(i as int, self@.lines.len() as int);
            assert(rest[0] == s.skip(k)[0]);
            assert(s[k] == self@.lines[i as int]);
            assert(s.skip(k + 1) =~= s.skip(k).drop_first());
            assert(self@.lines[i as int] == self.lines@[i as int]@);
            let st = self.lines[i].status();
            if st == Status::Dead {
                let id = self.lines[i].id();
                let ghost before = self@.lines;
                self.lines.remove(i);
                dead.push(id);
                assert(self@.lines =~= before.remove(i as int));
                assert(before.subrange(i as int, before.len() as int).drop_first() =~= before.subrange(i + 1, before.len() as int));
                assert(self@.lines.subrange(0, i as int) =~= before.subrange(0, i as int));
                assert(self@.lines.subrange(i as int, self@.lines.len() as int) =~= s.skip(k + 1));
            } else {
                i = i + 1;
                assert(self@.lines.subrange(0, i as int) =~= self@.lines.subrange(0, i - 1).push(s[k]));
                assert(self@.lines.subrange(i as int, self@.lines.len() as int) =~= s.skip(k + 1));
            }
            proof {
                k = k + 1;
            }
        }
        assert(s.take(k) =~= s);
        assert(self@.lines =~= self@.lines.subrange(0, i as int));
        proof {
            lemma_live_lines_wf(old(self)@);
        }
        dead
    }
}

/// A closed line that still has a pair.
pub open spec fn closing(l: AnyLineView) -> bool {
    l.status() == Status::Close && l.pair_id() > 0
}

/// The pairs of the closing lines, in table order.
pub open spec fn closing_pairs(s: Seq<AnyLineView>) -> Seq<u64>
    decreases s.len(),
{
    if s.len() == 0 {
        Seq::empty()
    } else if closing(s.last()) {
        closing_pairs(s.drop_last()).push(s.last().pair_id())
    } else {
        closing_pairs(s.drop_last())
    }
}

/// The closing lines turned dead.
pub open spec fn kill_closing(s: Seq<AnyLineView>) -> Seq<AnyLineView> {
    Seq::new(
        s.len(),
        |i: int|
            if closing(s[i]) {
                AnyLine::with_status(s[i], Status::Dead)
            } else {
                s[i]
            },
    )
}

impl GateView {
    /// The table after the lines `ids` go through `f`, one after the other.
    pub open spec fn update_each(self, ids: Seq<u64>, f: spec_fn(AnyLineView) -> AnyLineView) -> GateView
        decreases ids.len(),
    {
        if ids.len() == 0 {
            self
        } else {
            let g = self.update_each(ids.drop_last(), f);
            g.map_line(ids.last(), f(g.line(ids.last())))
        }
    }

    /// The table after the lines `pids` learn, in order, that their pair closed.
    pub open spec fn close_pairs(self, pids: Seq<u64>) -> GateView {
        self.update_each(pids, pair_closer())
    }

    /// Every closing line's pair is in the table.
    pub open spec fn pairs_of_closing_present(self) -> bool {
        forall|i: int| 0 <= i < self.lines.len() && closing(#[trigger] self.lines[i]) ==> self.has(self.lines[i].pair_id())
    }

    /// `decouple`: the closing lines die and their pairs are told.
    pub open spec fn decouple_spec(self) -> GateView {
        GateView { lines: kill_closing(self.lines), ..self }.close_pairs(closing_pairs(self.lines))
    }
}

/// `id` is the pair of a closing line of `s`.
pub open spec fn is_closing_pair(s: Seq<AnyLineView>, id: u64) -> bool {
    exists|i: int| 0 <= i < s.len() && closing(s[i]) && s[i].pair_id() == id
}

proof fn lemma_closing_pairs_from(s: Seq<AnyLineView>)
    ensures
        forall|k: int| 0 <= k < closing_pairs(s).len() ==> is_closing_pair(s, #[trigger] closing_pairs(s)[k]),
    decreases s.len(),
{
    if s.len() > 0 {
        let t = s.drop_last();
        lemma_closing_pairs_from(t);
        assert forall|k: int| 0 <= k < closing_pairs(s).len() implies is_closing_pair(s, #[trigger] closing_pairs(s)[k]) by {
            if k < closing_pairs(t).len() {
                assert(closing_pairs(s)[k] == closing_pairs(t)[k]);
                assert(is_closing_pair(t, closing_pairs(t)[k]));
                let i = choose|i: int| 0 <= i < t.len() && closing(t[i]) && t[i].pair_id() == closing_pairs(t)[k];
                assert(s[i] == t[i]);
            } else {
                let i = s.len() - 1;
                assert(s[i] == s.last());
            }
        }
    }
}

/// Sending lines through a function that keeps ids keeps ids, positions
/// and well-formedness.
pub proof fn lemma_update_each_keeps(g: GateView, ids: Seq<u64>, f: spec_fn(AnyLineView) -> AnyLineView)
    requires
        g.wf(),
        forall|k: int| 0 <= k < ids.len() ==> g.has(#[trigger] ids[k]),
        forall|v: AnyLineView| #[trigger] f(v).id() == v.id() && (f(v) is Dns) == (v is Dns),
    ensures
        g.update_each(ids, f).wf(),
        g.update_each(ids, f).lines.len() == g.lines.len(),
        forall|i: int| 0 <= i < g.lines.len() ==> #[trigger] g.update_each(ids, f).lines[i].id() == g.lines[i].id(),
        forall|id: u64| g.has(id) == #[trigger] g.update_each(ids, f).has(id),
        g.update_each(ids, f).frame == g.frame,
        g.update_each(ids, f).last_id == g.last_id,
    decreases ids.len(),
{
    if ids.len() > 0 {
        let p0 = ids.drop_last();
        assert forall|k: int| 0 <= k < p0.len() implies g.has(#[trigger] p0[k]) by {
            assert(p0[k] == ids[k]);
        }
        lemma_update_each_keeps(g, p0, f);
        let g1 = g.update_each(p0, f);
        let id = ids.last();
        assert(g.has(ids[ids.len() - 1]));
        assert(g1.has(id));
        let i = g1.index_of(id);
        lemma_same_id_update(g1, i, f(g1.line(id)));
    }
}

/// A line learning that its pair closed.
pub open spec fn pair_closer() -> spec_fn(AnyLineView) -> AnyLineView {
    |l: AnyLineView| AnyLine::pair_closed(l)
}

proof fn lemma_pair_closed_keeps_id()
    ensures
        forall|v: AnyLineView| #[trigger] pair_closer()(v).id() == v.id() && (pair_closer()(v) is Dns) == (v is Dns),
{
    assert forall|v: AnyLineView| #[trigger] pair_closer()(v).id() == v.id() && (pair_closer()(v) is Dns) == (v is Dns) by {
        lemma_id_stable(v, Status::Raw, 0, Seq::empty(), 0);
    }
}

/// Telling lines that their pair closed keeps ids, positions and well-formedness.
proof fn lemma_close_pairs_keeps(g: GateView, pids: Seq<u64>)
    requires
        g.wf(),
        forall|k: int| 0 <= k < pids.len() ==> g.has(#[trigger] pids[k]),
    ensures
        g.close_pairs(pids).wf(),
        g.close_pairs(pids).lines.len() == g.lines.len(),
        forall|i: int| 0 <= i < g.lines.len() ==> #[trigger] g.close_pairs(pids).lines[i].id() == g.lines[i].id(),
        forall|id: u64| g.has(id) == #[trigger] g.close_pairs(pids).has(id),
        g.close_pairs(pids).frame == g.frame,
        g.close_pairs(pids).last_id == g.last_id,
{
    lemma_pair_closed_keeps_id();
    lemma_update_each_keeps(g, pids, pair_closer());
}

/// No closing line is left once the closing lines died and their pairs
/// were told.
proof fn lemma_close_pairs_not_closing(g: GateView, pids: Seq<u64>)
    requires
        g.wf(),
        forall|k: int| 0 <= k < pids.len() ==> g.has(#[trigger] pids[k]),
        forall|i: int| 0 <= i < g.lines.len() ==> !closing(#[trigger] g.lines[i]),
    ensures
        forall|i: int| 0 <= i < g.close_pairs(pids).lines.len() ==> !closing(#[trigger] g.close_pairs(pids).lines[i]),
    decreases pids.len(),
{
    if pids.len() > 0 {
        let p0 = pids.drop_last();
        assert forall|k: int| 0 <= k < p0.len() implies g.has(#[trigger] p0[k]) by {
            assert(p0[k] == pids[k]);
        }
        lemma_close_pairs_not_closing(g, p0);
        lemma_close_pairs_keeps(g, p0);
        let g1 = g.close_pairs(p0);
        let id = pids.last();
        assert(g.has(pids[pids.len() - 1]));
        assert(g1.has(id));
        let i = g1.index_of(id);
        assert(0 <= i < g1.lines.len());
        assert(!closing(g1.lines[i]));
        let l2 = AnyLine::pair_closed(g1.lines[i]);
        assert(!closing(l2));
        let g2 = g.close_pairs(pids);
        assert(p0 =~= pids.drop_last());
        assert(g2 == g1.with_line(i, l2));
        assert forall|k: int| 0 <= k < g2.lines.len() implies !closing(#[trigger] g2.lines[k]) by {
            if k != i {
                assert(g2.lines[k] == g1.lines[k]);
            }
        }
    }
}

/// The pair of a closing line is among the pairs that `decouple` tells.
proof fn lemma_closing_pair_listed(s: Seq<AnyLineView>, i: int)
    requires
        0 <= i < s.len(),
        closing(s[i]),
    ensures
        closing_pairs(s).contains(s[i].pair_id()),
    decreases s.len(),
{
    let t = s.drop_last();
    if i < s.len() - 1 {
        assert(t[i] == s[i]);
        lemma_closing_pair_listed(t, i);
        let j = choose|j: int| 0 <= j < closing_pairs(t).len() && closing_pairs(t)[j] == s[i].pair_id();
        assert(closing_pairs(s)[j] == closing_pairs(t)[j]);
    } else {
        assert(s.last() == s[i]);
        assert(closing_pairs(s) == closing_pairs(t).push(s[i].pair_id()));
        assert(closing_pairs(s)[closing_pairs(t).len() as int] == s[i].pair_id());
    }
}

/// Turning the closing lines dead keeps the table well formed, every line's
/// id and kind, and the pairs to tell in the table.
proof fn lemma_kill_closing_keeps(g: GateView)
    requires
        g.wf(),
        g.pairs_of_closing_present(),
    ensures
        (GateView { lines: kill_closing(g.lines), ..g }).wf(),
        kill_closing(g.lines).len() == g.lines.len(),
        forall|i: int|
            0 <= i < g.lines.len() ==> #[trigger] kill_closing(g.lines)[i].id() == g.lines[i].id() && (
            kill_closing(g.lines)[i] is Tcp2Vps) == (g.lines[i] is Tcp2Vps),
        forall|q: int|
            0 <= q < closing_pairs(g.lines).len() ==> (GateView { lines: kill_closing(g.lines), ..g }).has(
                #[trigger] closing_pairs(g.lines)[q],
            ),
{
    let s = g.lines;
    let g1 = GateView { lines: kill_closing(s), ..g };
    assert forall|i: int| 0 <= i < s.len() implies #[trigger] kill_closing(s)[i].id() == s[i].id() && (kill_closing(
        s,
    )[i] is Tcp2Vps) == (s[i] is Tcp2Vps) by {
        lemma_id_stable(s[i], Status::Dead, 0, Seq::empty(), 0);
    }
    assert forall|a: int, b: int|
        0 <= a < g1.lines.len() && 0 <= b < g1.lines.len() && a != b implies #[trigger] g1.lines[a].id()
        != #[trigger] g1.lines[b].id() by {
        assert(kill_closing(s)[a].id() == s[a].id());
        assert(kill_closing(s)[b].id() == s[b].id());
        assert(s[a].id() != s[b].id());
    }
    assert forall|a: int| 0 <= a < g1.lines.len() implies g1.lines[a] is Dns || (10 < #[trigger] g1.lines[a].id()
        <= g1.last_id) by {
        lemma_id_stable(s[a], Status::Dead, 0, Seq::empty(), 0);
    }
    lemma_closing_pairs_from(s);
    assert forall|q: int| 0 <= q < closing_pairs(s).len() implies g1.has(#[trigger] closing_pairs(s)[q]) by {
        assert(is_closing_pair(s, closing_pairs(s)[q]));
        let i = choose|i: int| 0 <= i < s.len() && closing(s[i]) && s[i].pair_id() == closing_pairs(s)[q];
        let k = g.index_of(s[i].pair_id());
        assert(g.has(s[i].pair_id()));
        assert(kill_closing(s)[k].id() == s[k].id());
    }
}

/// Telling lines that their pair closed leaves a tunnel line a tunnel line;
/// once told, it is free and cooling down.
proof fn lemma_close_pairs_tunnel(g: GateView, pids: Seq<u64>, k: int)
    requires
        g.wf(),
        forall|q: int| 0 <= q < pids.len() ==> g.has(#[trigger] pids[q]),
        0 <= k < g.lines.len(),
        g.lines[k] is Tcp2Vps,
    ensures
        g.close_pairs(pids).lines[k] is Tcp2Vps,
        pids.contains(g.lines[k].id()) ==> g.close_pairs(pids).lines[k].pair_id() == 0 && g.close_pairs(
            pids,
        ).lines[k].status() == Status::CoolDown,
    decreases pids.len(),
{
    if pids.len() > 0 {
        let p0 = pids.drop_last();
        assert forall|q: int| 0 <= q < p0.len() implies g.has(#[trigger] p0[q]) by {
            assert(p0[q] == pids[q]);
        }
        lemma_close_pairs_tunnel(g, p0, k);
        lemma_close_pairs_keeps(g, p0);
        let g1 = g.close_pairs(p0);
        let id = pids.last();
        assert(g.has(pids[pids.len() - 1]));
        assert(g1.has(id));
        let j = g1.index_of(id);
        let g2 = g.close_pairs(pids);
        assert(g2 == g1.map_line(id, pair_closer()(g1.line(id))));
        assert(g1.lines[k].id() == g.lines[k].id());
        lemma_index_of(g1, k);
        lemma_pair_closed_frees(g1.lines[k]);
        if j == k {
            assert(g2.lines[k] == AnyLine::pair_closed(g1.lines[k]));
        } else {
            assert(g2.lines[k] == g1.lines[k]);
            if pids.contains(g.lines[k].id()) {
                assert(id != g.lines[k].id());
                let q = choose|q: int| 0 <= q < pids.len() && pids[q] == g.lines[k].id();
                assert(q != pids.len() - 1);
                assert(p0[q] == g.lines[k].id());
            }
        }
    }
}

/// Law: after `decouple`, a tunnel line that was paired with a closing line
/// is free and cooling down, so it is not lent to a client again until the
/// remote side answers a heart beat.
pub proof fn lemma_decouple_frees_tunnel(g: GateView, i: int, k: int)
    requires
        g.wf(),
        g.pairs_of_closing_present(),
        0 <= i < g.lines.len(),
        0 <= k < g.lines.len(),
        closing(g.lines[i]),
        g.lines[i].pair_id() == g.lines[k].id(),
        g.lines[k] is Tcp2Vps,
    ensures
        g.decouple_spec().lines[k] is Tcp2Vps,
        g.decouple_spec().lines[k].pair_id() == 0,
        g.decouple_spec().lines[k].status() == Status::CoolDown,
        forall|t: i64| !(#[trigger] g.decouple_spec().lines[k]->Tcp2Vps_0.is_ready_spec(t)),
{
    lemma_kill_closing_keeps(g);
    let g0 = GateView { lines: kill_closing(g.lines), ..g };
    lemma_closing_pair_listed(g.lines, i);
    assert(g0.lines[k].id() == g.lines[k].id());
    lemma_close_pairs_tunnel(g0, closing_pairs(g.lines), k);
}

impl Gate {
    /// Whether every closed line that still has a pair finds that pair in
    /// the table, as `decouple` needs.
    pub fn pairs_of_closing_present(&self) -> (r: bool)
        requires
            self@.wf(),
        ensures
            r == self@.pairs_of_closing_present(),
    {
        let n = self.lines.len();
        for i in 0..n
            invariant
                n == self@.lines.len(),
                self@.wf(),
                forall|j: int| 0 <= j < i && closing(#[trigger] self@.lines[j]) ==> self@.has(self@.lines[j].pair_id()),
        {
            assert(self@.lines[i as int] == self.lines@[i as int]@);
            let st = self.lines[i].status();
            let pid = self.lines[i].pair_id();
            if st == Status::Close && pid > 0 {
                if !self.has(pid) {
                    return false;
                }
            }
        }
        true
    }

    /// Whether every connected line that has a pair finds that pair in the
    /// table, as `deregister` needs.
    pub fn pairs_of_opened_present(&self) -> (r: bool)
        requires
            self@.wf(),
        ensures
            r == self@.pairs_of_opened_present(),
    {
        let n = self.lines.len();
        for i in 0..n
            invariant
                n == self@.lines.len(),
                self@.wf(),
                forall|j: int|
                    0 <= j < i && #[trigger] self@.lines[j].status() == Status::WriteOpen && self@.lines[j].pair_id() > 0
                        ==> self@.has(self@.lines[j].pair_id()),
        {
            assert(self@.lines[i as int] == self.lines@[i as int]@);
            let st = self.lines[i].status();
            let pid = self.lines[i].pair_id();
            if st == Status::WriteOpen && pid > 0 {
                if !self.has(pid) {
                    assert(self@.lines[i as int].status() == Status::WriteOpen);
                    return false;
                }
            }
        }
        true
    }
}

impl Gate {
    /// Closed lines that still have a pair die, and their pairs are told.
    pub fn decouple(&mut self)
        requires
            old(self)@.wf(),
            old(self)@.pairs_of_closing_present(),
        ensures
            final(self)@ == old(self)@.decouple_spec(),
            final(self)@.wf(),
            forall|i: int| 0 <= i < final(self)@.lines.len() ==> !closing(#[trigger] final(self)@.lines[i]),
    {
        let ghost s = old(self)@.lines;
        let mut close: Vec<u64> = Vec::new();
        let n = self.lines.len();
        for i in 0..n
            invariant
                n == s.len(),
                self@.lines.len() == n,
                self@.frame == old(self)@.frame,
                self@.last_id == old(self)@.last_id,
                forall|j: int| 0 <= j < i ==> #[trigger] self@.lines[j] == kill_closing(s)[j],
                forall|j: int| i <= j < n ==> #[trigger] self@.lines[j] == s[j],
                close@ == closing_pairs(s.take(i as int)),
        {
            assert(s.take(i + 1).drop_last() =~= s.take(i as int));
            assert(self@.lines[i as int] == self.lines@[i as int]@);
            let ghost before = self@.lines;
            if self.lines[i].status() == Status::Close {
                let pid = self.lines[i].pair_id();
                if pid > 0 {
                    close.push(pid);
                    self.lines[i].turn_dead();
                    assert(self@.lines =~= before.update(i as int, kill_closing(s)[i as int]));
                }
            }
        }
        assert(s.take(n as int) =~= s);
        let ghost g1 = GateView { lines: kill_closing(s), ..old(self)@ };
        assert(self@.lines =~= g1.lines);
        proof {
            assert forall|a: int, b: int|
                0 <= a < g1.lines.len() && 0 <= b < g1.lines.len() && a != b implies #[trigger] g1.lines[a].id()
                != #[trigger] g1.lines[b].id() by {
                lemma_id_stable(s[a], Status::Dead, 0, Seq::empty(), 0);
                lemma_id_stable(s[b], Status::Dead, 0, Seq::empty(), 0);
                assert(s[a].id() != s[b].id());
            }
            assert forall|a: int| 0 <= a < g1.lines.len() implies g1.lines[a] is Dns || (10 < #[trigger] g1.lines[a].id() <= g1.last_id) by {
                lemma_id_stable(s[a], Status::Dead, 0, Seq::empty(), 0);
                assert(s[a].id() == old(self)@.lines[a].id());
            }
            assert forall|id: u64| old(self)@.has(id) implies g1.has(id) by {
                let k = old(self)@.index_of(id);
                lemma_id_stable(s[k], Status::Dead, 0, Seq::empty(), 0);
                assert(g1.lines[k].id() == id);
            }
            lemma_closing_pairs_from(s);
            assert forall|k: int| 0 <= k < close@.len() implies g1.has(#[trigger] close@[k]) by {
                assert(is_closing_pair(s, closing_pairs(s)[k]));
                let i = choose|i: int| 0 <= i < s.len() && closing(s[i]) && s[i].pair_id() == closing_pairs(s)[k];
                assert(closing(old(self)@.lines[i]));
            }
            assert forall|i: int| 0 <= i < g1.lines.len() implies !closing(#[trigger] g1.lines[i]) by {
                lemma_id_stable(s[i], Status::Dead, 0, Seq::empty(), 0);
            }
        }
        let m = close.len();
        for k in 0..m
            invariant
                m == close@.len(),
                g1.wf(),
                forall|q: int| 0 <= q < close@.len() ==> g1.has(#[trigger] close@[q]),
                self@ == g1.close_pairs(close@.take(k as int)),
        {
            let ghost tk = close@.take(k as int);
            assert(close@.take(k + 1).drop_last() =~= tk);
            assert forall|q: int| 0 <= q < tk.len() implies g1.has(#[trigger] tk[q]) by {
                assert(tk[q] == close@[q]);
            }
            proof {
                lemma_close_pairs_keeps(g1, tk);
            }
            let pid = close[k];
            assert(g1.has(close@[k as int]));
            let j = self.find(pid).unwrap();
            let ghost before = self@;
            self.lines[j].on_pair_close();
            assert(self@.lines =~= before.lines.update(j as int, AnyLine::pair_closed(before.line(pid))));
        }
        assert(close@.take(m as int) =~= close@);
        proof {
            lemma_close_pairs_keeps(g1, close@);
            lemma_close_pairs_not_closing(g1, close@);
        }
    }
}

/// A line whose socket is shut for good, or an outgoing line whose connect
/// completed: both leave epoll for now.
pub open spec fn hangs_up(l: AnyLineView) -> bool {
    l.status() == Status::ReadWriteBothClose || l.status() == Status::WriteOpen
}

/// The status change of `deregister`: a shut line closes, a connected line
/// registers for reading.
pub open spec fn deregister_line(l: AnyLineView) -> AnyLineView {
    if l.status() == Status::ReadWriteBothClose {
        AnyLine::with_status(l, Status::Close)
    } else if l.status() == Status::WriteOpen {
        AnyLine::with_status(l, Status::Register)
    } else {
        l
    }
}

/// The ids of the lines that leave epoll, in table order.
pub open spec fn hang_up_ids(s: Seq<AnyLineView>) -> Seq<u64>
    decreases s.len(),
{
    if s.len() == 0 {
        Seq::empty()
    } else if hangs_up(s.last()) {
        hang_up_ids(s.drop_last()).push(s.last().id())
    } else {
        hang_up_ids(s.drop_last())
    }
}

/// The ids of the connected lines, which come back for reading.
pub open spec fn change_ids(s: Seq<AnyLineView>) -> Seq<u64>
    decreases s.len(),
{
    if s.len() == 0 {
        Seq::empty()
    } else if s.last().status() == Status::WriteOpen {
        change_ids(s.drop_last()).push(s.last().id())
    } else {
        change_ids(s.drop_last())
    }
}

/// The pairs of the connected lines.
pub open spec fn opened_pairs(s: Seq<AnyLineView>) -> Seq<u64>
    decreases s.len(),
{
    if s.len() == 0 {
        Seq::empty()
    } else if s.last().status() == Status::WriteOpen && s.last().pair_id() > 0 {
        opened_pairs(s.drop_last()).push(s.last().pair_id())
    } else {
        opened_pairs(s.drop_last())
    }
}

/// A client line learning that its outgoing line connected; other lines
/// ignore it.
pub open spec fn world_connector() -> spec_fn(AnyLineView) -> AnyLineView {
    |l: AnyLineView|
        match l {
            AnyLineView::MainLand(m) => AnyLineView::MainLand(
                crate::line::mainland::MainLandView { step: MainLandStep::WorldConnectSuccess, ..m },
            ),
            _ => l,
        }
}

/// `id` is the pair of a connected line of `s`.
pub open spec fn is_opened_pair(s: Seq<AnyLineView>, id: u64) -> bool {
    exists|i: int| 0 <= i < s.len() && s[i].status() == Status::WriteOpen && s[i].pair_id() > 0 && s[i].pair_id() == id
}

proof fn lemma_opened_pairs_from(s: Seq<AnyLineView>)
    ensures
        forall|k: int| 0 <= k < opened_pairs(s).len() ==> is_opened_pair(s, #[trigger] opened_pairs(s)[k]),
    decreases s.len(),
{
    if s.len() > 0 {
        let t = s.drop_last();
        lemma_opened_pairs_from(t);
        assert forall|k: int| 0 <= k < opened_pairs(s).len() implies is_opened_pair(s, #[trigger] opened_pairs(s)[k]) by {
            if k < opened_pairs(t).len() {
                assert(opened_pairs(s)[k] == opened_pairs(t)[k]);
                assert(is_opened_pair(t, opened_pairs(t)[k]));
                let i = choose|i: int|
                    0 <= i < t.len() && t[i].status() == Status::WriteOpen && t[i].pair_id() > 0 && t[i].pair_id()
                        == opened_pairs(t)[k];
                assert(s[i] == t[i]);
            } else {
                let i = s.len() - 1;
                assert(s[i] == s.last());
            }
        }
    }
}

impl GateView {
    /// Every connected line's pair is in the table.
    pub open spec fn pairs_of_opened_present(self) -> bool {
        forall|i: int|
            0 <= i < self.lines.len() && #[trigger] self.lines[i].status() == Status::WriteOpen && self.lines[i].pair_id()
                > 0 ==> self.has(self.lines[i].pair_id())
    }

    /// `deregister`: status changes, then the connected lines' clients learn
    /// that their outgoing line is up.
    pub open spec fn deregister_spec(self) -> GateView {
        GateView { lines: self.lines.map_values(|l: AnyLineView| deregister_line(l)), ..self }.update_each(
            opened_pairs(self.lines),
            world_connector(),
        )
    }
}

/// What the caller does with epoll after `deregister`: remove the sockets
/// of `hang_up`, then register the sockets of `change` for reading.
pub struct Deregistration {
    pub hang_up: Vec<u64>,
    pub change: Vec<u64>,
}

impl Gate {
    /// Shut lines close and connected outgoing lines switch to reading;
    /// their clients are told the connection is up.
    pub fn deregister(&mut self) -> (r: Deregistration)
        requires
            old(self)@.wf(),
            old(self)@.pairs_of_opened_present(),
        ensures
            final(self)@ == old(self)@.deregister_spec(),
            final(self)@.wf(),
            r.hang_up@ == hang_up_ids(old(self)@.lines),
            r.change@ == change_ids(old(self)@.lines),
            forall|i: int| 0 <= i < final(self)@.lines.len() ==> !hangs_up(#[trigger] final(self)@.lines[i]),
    {
        let ghost s = old(self)@.lines;
        let mut hang_up: Vec<u64> = Vec::new();
        let mut change: Vec<u64> = Vec::new();
        let mut mainland: Vec<u64> = Vec::new();
        let n = self.lines.len();
        for i in 0..n
            invariant
                n == s.len(),
                self@.lines.len() == n,
                self@.frame == old(self)@.frame,
                self@.last_id == old(self)@.last_id,
                forall|j: int| 0 <= j < i ==> #[trigger] self@.lines[j] == deregister_line(s[j]),
                forall|j: int| i <= j < n ==> #[trigger] self@.lines[j] == s[j],
                hang_up@ == hang_up_ids(s.take(i as int)),
                change@ == change_ids(s.take(i as int)),
                mainland@ == opened_pairs(s.take(i as int)),
        {
            assert(s.take(i + 1).drop_last() =~= s.take(i as int));
            assert(self@.lines[i as int] == self.lines@[i as int]@);
            let ghost before = self@.lines;
            let id = self.lines[i].id();
            let pid = self.lines[i].pair_id();
            let st = self.lines[i].status();
            if st == Status::ReadWriteBothClose {
                hang_up.push(id);
                self.lines[i].set_status(Status::Close);
                assert(self@.lines =~= before.update(i as int, deregister_line(s[i as int])));
            } else if st == Status::WriteOpen {
                hang_up.push(id);
                change.push(id);
                self.lines[i].set_status(Status::Register);
                if pid > 0 {
                    mainland.push(pid);
                }
                assert(self@.lines =~= before.update(i as int, deregister_line(s[i as int])));
            }
        }
        assert(s.take(n as int) =~= s);
        let ghost g1 = GateView { lines: s.map_values(|l: AnyLineView| deregister_line(l)), ..old(self)@ };
        assert(self@.lines =~= g1.lines);
        proof {
            assert forall|a: int| 0 <= a < s.len() implies #[trigger] g1.lines[a].id() == s[a].id() by {
                lemma_id_stable(s[a], Status::Close, 0, Seq::empty(), 0);
                lemma_id_stable(s[a], Status::Register, 0, Seq::empty(), 0);
            }
            assert forall|a: int, b: int|
                0 <= a < g1.lines.len() && 0 <= b < g1.lines.len() && a != b implies #[trigger] g1.lines[a].id()
                != #[trigger] g1.lines[b].id() by {
                assert(s[a].id() != s[b].id());
            }
            assert forall|a: int| 0 <= a < g1.lines.len() implies g1.lines[a] is Dns || (10 < #[trigger] g1.lines[a].id() <= g1.last_id) by {
                assert(s[a].id() == old(self)@.lines[a].id());
            }
            assert forall|id: u64| old(self)@.has(id) implies g1.has(id) by {
                let k = old(self)@.index_of(id);
                assert(g1.lines[k].id() == id);
            }
            lemma_opened_pairs_from(s);
            assert forall|k: int| 0 <= k < mainland@.len() implies g1.has(#[trigger] mainland@[k]) by {
                assert(is_opened_pair(s, opened_pairs(s)[k]));
                let i = choose|i: int|
                    0 <= i < s.len() && s[i].status() == Status::WriteOpen && s[i].pair_id() > 0 && s[i].pair_id()
                        == opened_pairs(s)[k];
                assert(old(self)@.lines[i].status() == Status::WriteOpen);
            }
            assert forall|v: AnyLineView| #[trigger] world_connector()(v).id() == v.id() && (world_connector()(v) is Dns) == (v is Dns) by {
            }
            assert forall|i: int| 0 <= i < g1.lines.len() implies !hangs_up(#[trigger] g1.lines[i]) by {
                lemma_id_stable(s[i], Status::Close, 0, Seq::empty(), 0);
            }
        }
        let m = mainland.len();
        for k in 0..m
            invariant
                m == mainland@.len(),
                g1.wf(),
                forall|q: int| 0 <= q < mainland@.len() ==> g1.has(#[trigger] mainland@[q]),
                forall|v: AnyLineView| #[trigger] world_connector()(v).id() == v.id() && (world_connector()(v) is Dns) == (v is Dns),
                self@ == g1.update_each(mainland@.take(k as int), world_connector()),
        {
            let ghost tk = mainland@.take(k as int);
            assert(mainland@.take(k + 1).drop_last() =~= tk);
            assert forall|q: int| 0 <= q < tk.len() implies g1.has(#[trigger] tk[q]) by {
                assert(tk[q] == mainland@[q]);
            }
            proof {
                lemma_update_each_keeps(g1, tk, world_connector());
            }
            let pid = mainland[k];
            assert(g1.has(mainland@[k as int]));
            let j = self.find(pid).unwrap();
            let ghost before = self@;
            match &mut self.lines[j] {
                AnyLine::MainLand(ml) => ml.world_connect_success(),
                _ => {},
            }
            assert(self@.lines =~= before.lines.update(j as int, world_connector()(before.line(pid))));
        }
        assert(mainland@.take(m as int) =~= mainland@);
        proof {
            lemma_update_each_keeps(g1, mainland@, world_connector());
            lemma_update_each_status(g1, mainland@, world_connector());
        }
        Deregistration { hang_up, change }
    }
}

/// A function that keeps every line's status keeps the statuses of the table.
proof fn lemma_update_each_status(g: GateView, ids: Seq<u64>, f: spec_fn(AnyLineView) -> AnyLineView)
    requires
        g.wf(),
        forall|k: int| 0 <= k < ids.len() ==> g.has(#[trigger] ids[k]),
        forall|v: AnyLineView| #[trigger] f(v).id() == v.id() && (f(v) is Dns) == (v is Dns),
        forall|v: AnyLineView| #[trigger] f(v).status() == v.status(),
    ensures
        forall|i: int| 0 <= i < g.lines.len() ==> #[trigger] g.update_each(ids, f).lines[i].status() == g.lines[i].status(),
    decreases ids.len(),
{
    if ids.len() > 0 {
        let p0 = ids.drop_last();
        assert forall|k: int| 0 <= k < p0.len() implies g.has(#[trigger] p0[k]) by {
            assert(p0[k] == ids[k]);
        }
        lemma_update_each_status(g, p0, f);
        lemma_update_each_keeps(g, p0, f);
        let g1 = g.update_each(p0, f);
        assert(g.has(ids[ids.len() - 1]));
        assert(g1.has(ids.last()));
        let j = g1.index_of(ids.last());
        let g2 = g.update_each(ids, f);
        assert forall|i: int| 0 <= i < g.lines.len() implies #[trigger] g2.lines[i].status() == g.lines[i].status() by {
            if i == j {
                assert(g2.lines[i] == f(g1.lines[j]));
            } else {
                assert(g2.lines[i] == g1.lines[i]);
            }
        }
    }
}

/// A client line whose outgoing line is up and which kept client bytes.
pub open spec fn has_hello(l: AnyLineView) -> bool {
    l matches AnyLineView::MainLand(m) && m.step == MainLandStep::WorldConnectSuccess && m.client_hello_data.len() > 0
}

/// The line after handing out its kept client bytes.
pub open spec fn hello_moved(l: AnyLineView) -> AnyLineView {
    match l {
        AnyLineView::MainLand(m) => if has_hello(l) {
            AnyLineView::MainLand(
                crate::line::mainland::MainLandView {
                    client_hello_data: Seq::empty(),
                    step: MainLandStep::ClientHelloDone,
                    ..m
                },
            )
        } else {
            l
        },
        _ => l,
    }
}

/// The kept client bytes, addressed to each client's outgoing line.
pub open spec fn hello_data(s: Seq<AnyLineView>) -> Seq<(u64, Seq<u8>)>
    decreases s.len(),
{
    if s.len() == 0 {
        Seq::empty()
    } else if has_hello(s.last()) {
        hello_data(s.drop_last()).push((s.last().pair_id(), s.last()->MainLand_0.client_hello_data))
    } else {
        hello_data(s.drop_last())
    }
}

impl GateView {
    /// The writes among `data` that reach a line of the table that may write.
    pub open spec fn deliverable(self, data: Seq<(u64, Seq<u8>)>) -> Seq<(u64, Seq<u8>)>
        decreases data.len(),
    {
        if data.len() == 0 {
            Seq::empty()
        } else {
            let rest = self.deliverable(data.drop_last());
            let (id, buf) = data.last();
            if self.has(id) && may_send(self.line(id).status()) {
                rest.push((id, buf))
            } else {
                rest
            }
        }
    }

    /// The targets among `data` that are not in the table, in order.
    pub open spec fn missing_targets(self, data: Seq<(u64, Seq<u8>)>) -> Seq<u64>
        decreases data.len(),
    {
        if data.len() == 0 {
            Seq::empty()
        } else {
            let rest = self.missing_targets(data.drop_last());
            if self.has(data.last().0) {
                rest
            } else {
                rest.push(data.last().0)
            }
        }
    }

    /// The table after the client lines handed out their kept bytes.
    pub open spec fn hello_moved_all(self) -> GateView {
        GateView { lines: self.lines.map_values(|l: AnyLineView| hello_moved(l)), ..self }
    }
}

pub open spec fn sends_view(v: Seq<Send>) -> Seq<(u64, Seq<u8>)> {
    v.map_values(|x: Send| x@)
}

impl Gate {
    /// The outgoing lines that `gather_client_hello` would find missing: the
    /// pairs, not in the table, of the client lines with kept bytes to hand
    /// out, in table order.
    pub fn hello_targets_missing(&self) -> (r: Vec<u64>)
        requires
            self@.wf(),
        ensures
            r@ == self@.missing_targets(hello_data(self@.lines)),
    {
        let ghost s = self@.lines;
        let mut missing: Vec<u64> = Vec::new();
        let n = self.lines.len();
        for i in 0..n
            invariant
                n == s.len(),
                s == self@.lines,
                self@.wf(),
                missing@ == self@.missing_targets(hello_data(s.take(i as int))),
        {
            assert(s.take(i + 1).drop_last() =~= s.take(i as int));
            assert(s.take(i + 1).last() == s[i as int]);
            assert(s[i as int] == self.lines@[i as int]@);
            let ghost d0 = hello_data(s.take(i as int));
            let ghost d1 = hello_data(s.take(i + 1));
            match &self.lines[i] {
                AnyLine::MainLand(m) => {
                    if m.step == MainLandStep::WorldConnectSuccess && m.client_hello_data.len() > 0 {
                        let pid = m.pair_id;
                        assert(has_hello(s[i as int]));
                        assert(d1 == d0.push((pid, m.client_hello_data@)));
                        assert(d1.drop_last() =~= d0);
                        if !self.has(pid) {
                            missing.push(pid);
                        }
                    } else {
                        assert(!has_hello(s[i as int]));
                        assert(d1 == d0);
                    }
                },
                _ => {
                    assert(!has_hello(s[i as int]));
                    assert(d1 == d0);
                },
            }
        }
        assert(s.take(n as int) =~= s);
        missing
    }

    /// Client bytes kept until the outgoing line was up go to that line.
    pub fn gather_client_hello(&mut self) -> (r: Vec<Send>)
        requires
            old(self)@.wf(),
        ensures
            final(self)@ == old(self)@.hello_moved_all(),
            final(self)@.wf(),
            sends_view(r@) == final(self)@.deliverable(hello_data(old(self)@.lines)),
    {
        let ghost s = old(self)@.lines;
        let mut data: Vec<(u64, Vec<u8>)> = Vec::new();
        let n = self.lines.len();
        for i in 0..n
            invariant
                n == s.len(),
                self@.lines.len() == n,
                self@.frame == old(self)@.frame,
                self@.last_id == old(self)@.last_id,
                forall|j: int| 0 <= j < i ==> #[trigger] self@.lines[j] == hello_moved(s[j]),
                forall|j: int| i <= j < n ==> #[trigger] self@.lines[j] == s[j],
                data@.map_values(|p: (u64, Vec<u8>)| (p.0, p.1@)) == hello_data(s.take(i as int)),
        {
            assert(s.take(i + 1).drop_last() =~= s.take(i as int));
            assert(self@.lines[i as int] == self.lines@[i as int]@);
            let ghost before = self@.lines;
            let ghost d0 = data@;
            match &mut self.lines[i] {
                AnyLine::MainLand(m) => {
                    match m.move_out_client_hello_data() {
                        Some(buf) => {
                            data.push((m.pair_id, buf));
                            assert(data@.map_values(|p: (u64, Vec<u8>)| (p.0, p.1@)) =~= d0.map_values(
                                |p: (u64, Vec<u8>)| (p.0, p.1@),
                            ).push((s[i as int].pair_id(), s[i as int]->MainLand_0.client_hello_data)));
                        },
                        None => {},
                    }
                },
                _ => {},
            }
            assert(self@.lines =~= before.update(i as int, hello_moved(s[i as int])));
        }
        assert(s.take(n as int) =~= s);
        assert(self@.lines =~= old(self)@.hello_moved_all().lines);
        proof {
            let g1 = old(self)@.hello_moved_all();
            assert forall|a: int| 0 <= a < s.len() implies #[trigger] g1.lines[a].id() == s[a].id() by {
            }
            assert forall|a: int, b: int|
                0 <= a < g1.lines.len() && 0 <= b < g1.lines.len() && a != b implies #[trigger] g1.lines[a].id()
                != #[trigger] g1.lines[b].id() by {
                assert(s[a].id() != s[b].id());
            }
            assert forall|a: int| 0 <= a < g1.lines.len() implies g1.lines[a] is Dns || (10 < #[trigger] g1.lines[a].id() <= g1.last_id) by {
                assert(s[a].id() == old(self)@.lines[a].id());
            }
        }
        let ghost dv = data@.map_values(|p: (u64, Vec<u8>)| (p.0, p.1@));
        let mut sends: Vec<Send> = Vec::new();
        let m = data.len();
        for k in 0..m
            invariant
                m == data@.len(),
                self@.wf(),
                dv == data@.map_values(|p: (u64, Vec<u8>)| (p.0, p.1@)),
                sends_view(sends@) == self@.deliverable(dv.take(k as int)),
        {
            assert(dv.take(k + 1).drop_last() =~= dv.take(k as int));
            assert(dv[k as int] == (data@[k as int].0, data@[k as int].1@));
            let id = data[k].0;
            let ghost s0 = sends@;
            match self.find(id) {
                Some(j) => {
                    assert(self@.lines[j as int] == self.lines@[j as int]@);
                    match self.lines[j].socket_send(data[k].1.as_slice()) {
                        Some(bytes) => {
                            sends.push(Send { target: id, data: bytes });
                            assert(sends_view(sends@) =~= sends_view(s0).push((id, data@[k as int].1@)));
                        },
                        None => {},
                    }
                },
                None => {},
            }
        }
        assert(dv.take(m as int) =~= dv);
        sends
    }
}

/// Law: a second `gather_client_hello` right after the first sends nothing
/// and changes nothing.
pub proof fn lemma_gather_client_hello_twice(g: GateView)
    ensures
        hello_data(g.hello_moved_all().lines).len() == 0,
        g.hello_moved_all().hello_moved_all() == g.hello_moved_all(),
{
    let s = g.hello_moved_all().lines;
    assert forall|i: int| 0 <= i < s.len() implies !has_hello(#[trigger] s[i]) by {
    }
    lemma_no_hello(s);
    assert(g.hello_moved_all().hello_moved_all().lines =~= s);
}

proof fn lemma_no_hello(s: Seq<AnyLineView>)
    requires
        forall|i: int| 0 <= i < s.len() ==> !has_hello(#[trigger] s[i]),
    ensures
        hello_data(s).len() == 0,
    decreases s.len(),
{
    if s.len() > 0 {
        let t = s.drop_last();
        assert forall|i: int| 0 <= i < t.len() implies !has_hello(#[trigger] t[i]) by {
            assert(t[i] == s[i]);
        }
        lemma_no_hello(t);
        assert(!has_hello(s[s.len() - 1]));
    }
}

/// The heart beats due at `now`, one per line to the remote gateway.
pub open spec fn heart_beats(s: Seq<AnyLineView>, now: i64) -> Seq<(u64, Seq<u8>)>
    decreases s.len(),
{
    if s.len() == 0 {
        Seq::empty()
    } else {
        let rest = heart_beats(s.drop_last(), now);
        match s.last() {
            AnyLineView::Tcp2Vps(h) => match h.send_heart_beat_spec(now).1 {
                Some(b) => rest.push((h.basic.id, b)),
                None => rest,
            },
            _ => rest,
        }
    }
}

/// A line after keep-alive at `now`.
pub open spec fn kept_alive(l: AnyLineView, now: i64) -> AnyLineView {
    match l {
        AnyLineView::Tcp2Vps(h) => AnyLineView::Tcp2Vps(h.send_heart_beat_spec(now).0),
        _ => l,
    }
}

impl Gate {
    /// Each line to the remote gateway sends a heart beat if one is due at
    /// time `now`; returns the heart beats to write.
    pub fn tcp_keep_alive(&mut self, now: i64) -> (r: Vec<Send>)
        requires
            old(self)@.wf(),
        ensures
            final(self)@ == (GateView { lines: old(self)@.lines.map_values(|l: AnyLineView| kept_alive(l, now)), ..old(self)@ }),
            final(self)@.wf(),
            sends_view(r@) == heart_beats(old(self)@.lines, now),
    {
        let ghost s = old(self)@.lines;
        let mut sends: Vec<Send> = Vec::new();
        let n = self.lines.len();
        for i in 0..n
            invariant
                n == s.len(),
                self@.lines.len() == n,
                self@.frame == old(self)@.frame,
                self@.last_id == old(self)@.last_id,
                forall|j: int| 0 <= j < i ==> #[trigger] self@.lines[j] == kept_alive(s[j], now),
                forall|j: int| i <= j < n ==> #[trigger] self@.lines[j] == s[j],
                sends_view(sends@) == heart_beats(s.take(i as int), now),
        {
            assert(s.take(i + 1).drop_last() =~= s.take(i as int));
            assert(self@.lines[i as int] == self.lines@[i as int]@);
            let ghost before = self@.lines;
            let ghost s0 = sends@;
            match &mut self.lines[i] {
                AnyLine::Tcp2Vps(h) => {
                    let id = h.basic.id;
                    match h.send_heart_beat(now) {
                        Some(bytes) => {
                            sends.push(Send { target: id, data: bytes });
                            assert(sends_view(sends@) =~= sends_view(s0).push((id, bytes@)));
                        },
                        None => {},
                    }
                },
                _ => {},
            }
            assert(self@.lines =~= before.update(i as int, kept_alive(s[i as int], now)));
        }
        assert(s.take(n as int) =~= s);
        assert(self@.lines =~= s.map_values(|l: AnyLineView| kept_alive(l, now)));
        proof {
            let g1 = self@;
            assert forall|a: int, b: int|
                0 <= a < g1.lines.len() && 0 <= b < g1.lines.len() && a != b implies #[trigger] g1.lines[a].id()
                != #[trigger] g1.lines[b].id() by {
                assert(s[a].id() != s[b].id());
            }
            assert forall|a: int| 0 <= a < g1.lines.len() implies g1.lines[a] is Dns || (10 < #[trigger] g1.lines[a].id() <= g1.last_id) by {
                assert(s[a].id() == old(self)@.lines[a].id());
            }
        }
        sends
    }
}

} // verus!
