//! A client connecting to the gateway's listening socket.
use vstd::prelude::*;
use crate::gate::{Gate, GateView};
use crate::gate::line_creater::mainland_view;
use crate::global::{opt_bytes, spec_be_bytes};

verus! {

/// The line a new client connection became.
pub enum JohnLine {
    /// A SOCKS5 client relayed through a tunnel line: the new line's id, or
    /// `None` when no tunnel line was ready and the client is turned away.
    Pc(Option<u64>),
    /// A direct client: the new line's id and the heart beat to greet it with.
    MainLand(u64, Option<Vec<u8>>),
}

impl Gate {
    /// A client connected at time `now`.  With tunnel lines configured
    /// (`init_num > 0`) it is a SOCKS5 client for one of them; otherwise it
    /// is a direct client, greeted with a heart beat.
    pub fn on_john_connect(&mut self, init_num: u8, now: i64) -> (r: JohnLine)
        requires
            old(self)@.wf(),
            old(self)@.last_id < u64::MAX,
        ensures
            final(self)@.wf(),
            init_num > 0 ==> (r matches JohnLine::Pc(p) && (final(self)@, p) == old(self)@.chick_for_pc(now)),
            init_num == 0 ==> (r matches JohnLine::MainLand(id, greeting) && id == old(self)@.last_id + 1
                && opt_bytes(greeting) == Some(spec_be_bytes(id)) && final(self)@ == old(self)@.add_line(
                mainland_view(id),
            )),
    {
        if init_num > 0 {
            JohnLine::Pc(self.find_chick_for_pc(now))
        } else {
            let (id, greeting) = self.new_mainland_line();
            JohnLine::MainLand(id, greeting)
        }
    }

}

} // verus!
