//! The gateway's reactions to socket events.
use vstd::prelude::*;
use crate::config::TCP_GATE_ID;
use crate::gate::{Gate, GateView, Send, lemma_index_of};
use crate::line::any_line::{AnyLine, AnyLineView, lemma_id_stable};
use crate::line::event::{LineEvent, after_rd_hang_up, read_able, read_able_ok, reads_in};
use crate::line::network::{LineNetWork, may_send, Reply, reply_view};
use crate::line::pair::LinePair;
use crate::line::status::{LineStatus, Status};

verus! {

/// What an `EPOLLIN` event asks for.
#[derive(PartialEq, Eq, Structural, Clone, Copy, Debug)]
pub enum EpollIn {
    /// A client is connecting to the listening socket.
    AcceptJohn,
    /// A line's socket has bytes (or end of stream) to read.
    Read,
}

/// What a read on a line's socket leads to: a reply on the same socket and
/// bytes for the line's pair.
pub struct ReadEvent {
    pub reply: Option<Reply>,
    pub forward: Option<Send>,
}

pub open spec fn opt_send(s: Option<Send>) -> Option<(u64, Seq<u8>)> {
    match s {
        Some(x) => Some(x@),
        None => None,
    }
}

impl GateView {
    /// The table after line `id` has gone through `f`.
    pub open spec fn map_line(self, id: u64, l: AnyLineView) -> GateView {
        self.with_line(self.index_of(id), l)
    }

    /// The gateway, the rewritten buffer, the reply and the forwarded bytes
    /// after a read on line `id`.
    pub open spec fn read_event(self, id: u64, buf: Seq<u8>, failed: bool, now: i64) -> (GateView, Seq<u8>, Option<(Seq<u8>, bool)>, Option<(u64, Seq<u8>)>) {
        let (l2, b2, out) = read_able::<AnyLine>(self.line(id), buf, failed, now);
        let g2 = self.map_line(id, l2);
        let pid = l2.pair_id();
        let fwd = if out.0 > 0 && pid > 0 && may_send(g2.line(pid).status()) {
            Some((pid, b2.take(out.0 as int)))
        } else {
            None
        };
        (g2, b2, out.1, fwd)
    }
}

/// Replacing a line by one with the same id keeps the table well formed and
/// every line's position.
pub proof fn lemma_same_id_update(g: GateView, i: int, l: AnyLineView)
    requires
        g.wf(),
        0 <= i < g.lines.len(),
        l.id() == g.lines[i].id(),
        (l is Dns) == (g.lines[i] is Dns),
    ensures
        g.with_line(i, l).wf(),
        forall|id: u64| g.has(id) == #[trigger] g.with_line(i, l).has(id),
        forall|id: u64| g.has(id) ==> #[trigger] g.with_line(i, l).index_of(id) == g.index_of(id),
{
    let g2 = g.with_line(i, l);
    assert forall|a: int, b: int|
        0 <= a < g2.lines.len() && 0 <= b < g2.lines.len() && a != b implies #[trigger] g2.lines[a].id()
        != #[trigger] g2.lines[b].id() by {
        assert(g.lines[a].id() != g.lines[b].id());
    }
    assert forall|a: int| 0 <= a < g2.lines.len() implies g2.lines[a] is Dns || (10 < #[trigger] g2.lines[a].id()
        <= g2.last_id) by {
        assert(g.lines[a] is Dns || (10 < g.lines[a].id() <= g.last_id));
    }
    assert forall|id: u64| g.has(id) == #[trigger] g2.has(id) by {
        if g.has(id) {
            let k = g.index_of(id);
            assert(g2.lines[k].id() == id);
        }
        if g2.has(id) {
            let k = g2.index_of(id);
            assert(g.lines[k].id() == id);
        }
    }
    assert forall|id: u64| g.has(id) implies #[trigger] g2.index_of(id) == g.index_of(id) by {
        let k = g.index_of(id);
        assert(g2.lines[k].id() == id);
        lemma_index_of(g2, k);
    }
}

impl Gate {
    /// What an `EPOLLIN` event on epoll id `id` asks for.
    pub fn epoll_in(&self, id: u64) -> (r: EpollIn)
        ensures
            r == (if id == TCP_GATE_ID { EpollIn::AcceptJohn } else { EpollIn::Read }),
    {
        if id == TCP_GATE_ID {
            EpollIn::AcceptJohn
        } else {
            EpollIn::Read
        }
    }

    /// Whether an error event concerns the listening socket (rather than a line).
    pub fn epoll_err(&self, id: u64) -> (r: bool)
        ensures
            r == (id == TCP_GATE_ID),
    {
        id == TCP_GATE_ID
    }

    /// Line `id` may be written to (`EPOLLOUT`).
    pub fn on_write_able_event(&mut self, id: u64)
        requires
            old(self)@.wf(),
            old(self)@.has(id),
        ensures
            final(self)@ == old(self)@.map_line(id, AnyLine::with_status(old(self)@.line(id), Status::WriteOpen)),
            final(self)@.wf(),
    {
        let i = self.find(id).unwrap();
        self.lines[i].on_write_able();
        proof {
            lemma_id_stable(old(self)@.line(id), Status::WriteOpen, 0, Seq::empty(), 0);
            lemma_same_id_update(old(self)@, i as int, AnyLine::with_status(old(self)@.line(id), Status::WriteOpen));
        }
        assert(self@.lines =~= old(self)@.lines.update(i as int, AnyLine::with_status(old(self)@.line(id), Status::WriteOpen)));
    }

    /// The peer of line `id` shut its write side (`EPOLLRDHUP`).
    pub fn on_rd_hang_up_event(&mut self, id: u64)
        requires
            old(self)@.wf(),
            old(self)@.has(id),
        ensures
            final(self)@ == old(self)@.map_line(
                id,
                AnyLine::with_status(old(self)@.line(id), after_rd_hang_up(old(self)@.line(id).status())),
            ),
            final(self)@.wf(),
    {
        let i = self.find(id).unwrap();
        self.lines[i].on_rd_hang_up();
        let ghost l2 = AnyLine::with_status(old(self)@.line(id), after_rd_hang_up(old(self)@.line(id).status()));
        proof {
            lemma_id_stable(old(self)@.line(id), after_rd_hang_up(old(self)@.line(id).status()), 0, Seq::empty(), 0);
            lemma_same_id_update(old(self)@, i as int, l2);
        }
        assert(self@.lines =~= old(self)@.lines.update(i as int, l2));
    }

    /// The socket of line `id` hung up (`EPOLLHUP`).
    pub fn on_hang_up_event(&mut self, id: u64)
        requires
            old(self)@.wf(),
            old(self)@.has(id),
        ensures
            final(self)@ == old(self)@.map_line(id, AnyLine::with_status(old(self)@.line(id), Status::ReadWriteBothClose)),
            final(self)@.wf(),
    {
        let i = self.find(id).unwrap();
        self.lines[i].on_hang_up();
        let ghost l2 = AnyLine::with_status(old(self)@.line(id), Status::ReadWriteBothClose);
        proof {
            lemma_id_stable(old(self)@.line(id), Status::ReadWriteBothClose, 0, Seq::empty(), 0);
            lemma_same_id_update(old(self)@, i as int, l2);
        }
        assert(self@.lines =~= old(self)@.lines.update(i as int, l2));
    }

    /// Whether line `id`'s socket is still to be read.
    pub fn readable(&self, id: u64) -> (r: bool)
        requires
            self@.wf(),
            self@.has(id),
        ensures
            r == reads_in(self@.line(id).status()),
    {
        let i = self.find(id).unwrap();
        self.lines[i].readable()
    }

    /// Whether a read on line `id` with these bytes, at time `now`, can be
    /// handled: the line can take them, and when it passes bytes on, its
    /// pair is in the table.
    pub fn read_ok(&self, id: u64, buf: &[u8], failed: bool, now: i64) -> (r: bool)
        requires
            self@.wf(),
            self@.has(id),
        ensures
            r == (read_able_ok::<AnyLine>(self@.line(id), buf@, failed) && (read_able::<AnyLine>(
                self@.line(id),
                buf@,
                failed,
                now,
            ).2.0 > 0 && self@.line(id).pair_id() > 0 ==> self@.has(self@.line(id).pair_id()))),
    {
        let i = self.find(id).unwrap();
        let line = &self.lines[i];
        let reading = line.readable() && !failed && buf.len() > 0;
        let takes = !reading || line.network_data_acceptable(buf);
        let n = if reading {
            line.forward_len(buf, now)
        } else {
            0
        };
        let pid = line.pair_id();
        takes && (n == 0 || pid == 0 || self.has(pid))
    }

    /// A read on line `id`'s socket at time `now`: `buf` holds the bytes read
    /// (none: end of stream) unless the read `failed`.  Returns the reply for
    /// the line's own socket and the bytes for its pair.
    pub fn on_read_able_event(&mut self, id: u64, buf: &mut [u8], failed: bool, now: i64) -> (r: ReadEvent)
        requires
            old(self)@.wf(),
            old(self)@.has(id),
            read_able_ok::<AnyLine>(old(self)@.line(id), old(buf)@, failed),
            read_able::<AnyLine>(old(self)@.line(id), old(buf)@, failed, now).2.0 > 0 && old(self)@.line(id).pair_id()
                > 0 ==> old(self)@.has(old(self)@.line(id).pair_id()),
        ensures
            (final(self)@, final(buf)@, reply_view(r.reply), opt_send(r.forward)) == old(self)@.read_event(
                id,
                old(buf)@,
                failed,
                now,
            ),
            final(self)@.wf(),
    {
        let i = self.find(id).unwrap();
        let ghost g0 = self@;
        let ghost l0 = g0.line(id);
        let out = self.lines[i].on_read_able(buf, failed, now);
        let ghost l2 = read_able::<AnyLine>(l0, old(buf)@, failed, now).0;
        proof {
            lemma_id_stable(l0, after_read_close_or(l0), 0, old(buf)@, now);
            lemma_same_id_update(g0, i as int, l2);
        }
        assert(self@.lines =~= g0.lines.update(i as int, l2));
        assert(self@ == g0.map_line(id, l2));
        let n = out.forward;
        let mut forward: Option<Send> = None;
        if n > 0 {
            let pid = self.lines[i].pair_id();
            if pid > 0 {
                let j = self.find(pid).unwrap();
                let data = vstd::slice::slice_subrange(buf, 0, n);
                let sent = self.lines[j].socket_send(data);
                match sent {
                    Some(bytes) => {
                        forward = Some(Send { target: pid, data: bytes });
                    },
                    None => {},
                }
            }
        }
        ReadEvent { reply: out.reply, forward }
    }
}

/// The status a read can leave behind, for the id lemma.
pub open spec fn after_read_close_or(l: AnyLineView) -> Status {
    crate::line::event::after_read_close(l.status())
}

} // verus!
