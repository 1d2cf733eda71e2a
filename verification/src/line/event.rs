//! Socket events and how they move a line's status.
use vstd::prelude::*;
use crate::line::status::{LineStatus, Status};
use crate::line::network::{LineNetWork, NetworkOutcome};

verus! {

/// Status after the peer closed its read side (`EPOLLRDHUP`).
pub open spec fn after_rd_hang_up(st: Status) -> Status {
    if st == Status::ReadWriteBothClose || st == Status::ReadClose {
        Status::ReadWriteBothClose
    } else {
        Status::WriteClose
    }
}

/// Status after a read returned end of stream.
pub open spec fn after_read_close(st: Status) -> Status {
    if st == Status::ReadWriteBothClose || st == Status::WriteClose {
        Status::ReadWriteBothClose
    } else {
        Status::ReadClose
    }
}

/// A line reads its socket until its read side has closed.
pub open spec fn reads_in(st: Status) -> bool {
    !(st == Status::ReadClose || st == Status::ReadWriteBothClose)
}

/// A read on a line's socket: `buf` holds the bytes read (none means the
/// peer closed the stream), unless the read `failed`.
pub open spec fn read_able<L: LineNetWork>(v: L::V, buf: Seq<u8>, failed: bool, now: i64) -> (L::V, Seq<u8>, (nat, Option<(Seq<u8>, bool)>)) {
    if !reads_in(L::status_of(v)) || failed {
        (v, buf, (0, None))
    } else if buf.len() == 0 {
        (L::with_status(v, after_read_close(L::status_of(v))), buf, (0, None))
    } else {
        L::network_data(v, buf, now)
    }
}

/// The inputs on which a read can be handled.
pub open spec fn read_able_ok<L: LineNetWork>(v: L::V, buf: Seq<u8>, failed: bool) -> bool {
    reads_in(L::status_of(v)) && !failed && buf.len() > 0 ==> L::network_data_ok(v, buf)
}

/// Reactions of a line to the events of its socket.
pub trait LineEvent: LineNetWork {
    fn on_hang_up(&mut self)
        ensures
            final(self)@ == Self::with_status(old(self)@, Status::ReadWriteBothClose),
    {
        self.set_status(Status::ReadWriteBothClose);
    }

    fn on_rd_hang_up(&mut self)
        ensures
            final(self)@ == Self::with_status(old(self)@, after_rd_hang_up(Self::status_of(old(self)@))),
    {
        let st = self.status();
        if st == Status::ReadWriteBothClose {
            proof {
                Self::lemma_with_own_status(self@);
            }
            return ;
        }
        if st == Status::ReadClose {
            self.set_status(Status::ReadWriteBothClose);
        } else {
            self.set_status(Status::WriteClose);
        }
    }

    fn on_read_close(&mut self)
        ensures
            final(self)@ == Self::with_status(old(self)@, after_read_close(Self::status_of(old(self)@))),
    {
        let st = self.status();
        if st == Status::ReadWriteBothClose {
            proof {
                Self::lemma_with_own_status(self@);
            }
            return ;
        }
        if st == Status::WriteClose {
            self.set_status(Status::ReadWriteBothClose);
        } else {
            self.set_status(Status::ReadClose);
        }
    }

    fn on_write_able(&mut self)
        ensures
            final(self)@ == Self::with_status(old(self)@, Status::WriteOpen),
    {
        self.set_status(Status::WriteOpen);
    }

    /// Whether the socket should be read at all.
    fn readable(&self) -> (r: bool)
        ensures
            r == reads_in(Self::status_of(self@)),
    {
        let st = self.status();
        !(st == Status::ReadClose || st == Status::ReadWriteBothClose)
    }

    /// The outcome of reading the line's socket at time `now`.
    fn on_read_able(&mut self, buf: &mut [u8], failed: bool, now: i64) -> (r: NetworkOutcome)
        requires
            read_able_ok::<Self>(old(self)@, old(buf)@, failed),
        ensures
            (final(self)@, final(buf)@, r@) == read_able::<Self>(old(self)@, old(buf)@, failed, now),
    {
        if !self.readable() || failed {
            return NetworkOutcome::forward_only(0);
        }
        if buf.len() == 0 {
            self.on_read_close();
            return NetworkOutcome::forward_only(0);
        }
        self.on_network_data(buf, now)
    }

    fn turn_dead(&mut self)
        ensures
            final(self)@ == Self::with_status(old(self)@, Status::Dead),
    {
        self.set_status(Status::Dead);
    }
}

/// Law: once both directions have closed, in either order, the line is
/// `ReadWriteBothClose`.
pub proof fn lemma_both_closes_commute(st: Status)
    ensures
        after_read_close(after_rd_hang_up(st)) == Status::ReadWriteBothClose,
        after_rd_hang_up(after_read_close(st)) == Status::ReadWriteBothClose,
{
}

} // verus!
