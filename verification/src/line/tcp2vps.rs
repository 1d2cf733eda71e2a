//! A line from this gateway to the remote gateway, kept alive by heart beats
//! and lent to one local client at a time.
use vstd::prelude::*;
use crate::config::TCP_LIFE_TIME;
use crate::global::{be_bytes, opt_bytes, reverse, spec_be_bytes, spec_reverse};
use crate::line::base_line::BaseLine;
use crate::line::event::LineEvent;
use crate::line::network::{LineNetWork, NetworkOutcome};
use crate::line::pair::LinePair;
use crate::line::status::{LineStatus, Status};

verus! {

pub struct LineTcp2Vps {
    pub basic: BaseLine,
    pub pair_id: u64,
    pub last_send_heart_beat: i64,
    pub last_recv_heart_beat: i64,
}

impl LineTcp2Vps {
    pub fn new(id: u64) -> (r: LineTcp2Vps)
        ensures
            r == (LineTcp2Vps {
                basic: BaseLine { id, status: Status::Raw },
                pair_id: 0,
                last_send_heart_beat: 0,
                last_recv_heart_beat: 0,
            }),
    {
        LineTcp2Vps {
            basic: BaseLine::new(id),
            pair_id: 0,
            last_send_heart_beat: 0,
            last_recv_heart_beat: 0,
        }
    }

    /// No heart beat from the remote side for more than `TCP_LIFE_TIME` seconds.
    pub open spec fn tcp_timeout_spec(self, now: i64) -> bool {
        now - self.last_recv_heart_beat > TCP_LIFE_TIME
    }

    /// Free (no pair), alive and established: it can be lent to a client.
    pub open spec fn is_ready_spec(self, now: i64) -> bool {
        self.pair_id == 0 && !self.tcp_timeout_spec(now) && self.basic.status == Status::Establish
    }

    /// The heart beat this line sends: its id, big-endian, obfuscated.
    pub open spec fn heart_beat_bytes(id: u64) -> Seq<u8> {
        spec_reverse(spec_be_bytes(id))
    }

    /// The line and the heart beat to send, when asked to keep alive at `now`.
    pub open spec fn send_heart_beat_spec(self, now: i64) -> (LineTcp2Vps, Option<Seq<u8>>) {
        if self.pair_id > 0 || now - self.last_send_heart_beat < TCP_LIFE_TIME / 10 || now
            - self.last_recv_heart_beat < TCP_LIFE_TIME / 10 || !(self.basic.status
            == Status::Establish || self.basic.status == Status::CoolDown) {
            (self, None)
        } else {
            (
                LineTcp2Vps { last_send_heart_beat: now, ..self },
                Some(Self::heart_beat_bytes(self.basic.id)),
            )
        }
    }

    /// The line after receiving `buf` as a heart beat at `now`: eight bytes
    /// establish the line; anything else is ignored.
    pub open spec fn recv_heart_beat_spec(self, buf: Seq<u8>, now: i64) -> LineTcp2Vps {
        if buf.len() == 8 {
            LineTcp2Vps {
                basic: BaseLine { status: Status::Establish, ..self.basic },
                last_recv_heart_beat: now,
                ..self
            }
        } else {
            self
        }
    }

    /// Law: a line is ready only when it is established, free and has
    /// heard from the remote side within the last `TCP_LIFE_TIME` seconds;
    /// a line cooling down is never ready.
    pub proof fn lemma_ready_only_established(self, now: i64)
        ensures
            self.is_ready_spec(now) ==> self.basic.status == Status::Establish && self.pair_id == 0 && now
                - self.last_recv_heart_beat <= TCP_LIFE_TIME,
            self.basic.status != Status::Establish ==> !self.is_ready_spec(now),
            self.basic.status == Status::Establish && self.pair_id == 0 && now - self.last_recv_heart_beat
                <= TCP_LIFE_TIME ==> self.is_ready_spec(now),
    {
    }

    /// Law: a free line that is established or cooling down, whose last heart
    /// beats sent and received are at least `TCP_LIFE_TIME / 10` seconds old,
    /// sends its heart beat (its id, big-endian, obfuscated) and records the
    /// time; in any other case keep-alive sends nothing and changes nothing.
    pub proof fn lemma_heart_beat_due(self, now: i64)
        ensures
            self.pair_id == 0 && (self.basic.status == Status::Establish || self.basic.status == Status::CoolDown)
                && now - self.last_send_heart_beat >= TCP_LIFE_TIME / 10 && now - self.last_recv_heart_beat
                >= TCP_LIFE_TIME / 10 ==> self.send_heart_beat_spec(now) == (
                LineTcp2Vps { last_send_heart_beat: now, ..self },
                Some(spec_reverse(spec_be_bytes(self.basic.id))),
            ),
            !(self.pair_id == 0 && (self.basic.status == Status::Establish || self.basic.status
                == Status::CoolDown) && now - self.last_send_heart_beat >= TCP_LIFE_TIME / 10 && now
                - self.last_recv_heart_beat >= TCP_LIFE_TIME / 10) ==> self.send_heart_beat_spec(now) == (
                self,
                None::<Seq<u8>>,
            ),
    {
    }

    pub fn tcp_timeout(&self, now: i64) -> (r: bool)
        ensures
            r == self.tcp_timeout_spec(now),
    {
        let gap: i128 = now as i128 - self.last_recv_heart_beat as i128;
        gap > TCP_LIFE_TIME as i128
    }

    pub fn is_ready(&self, now: i64) -> (r: bool)
        ensures
            r == self.is_ready_spec(now),
    {
        if self.pair_id > 0 {
            return false;
        }
        if self.tcp_timeout(now) {
            return false;
        }
        if self.basic.status == Status::Establish {
            return true;
        }
        false
    }

    /// Keep-alive at time `now`: the heart beat to write, if one is due.
    pub fn send_heart_beat(&mut self, now: i64) -> (r: Option<Vec<u8>>)
        ensures
            (*final(self), opt_bytes(r)) == old(self).send_heart_beat_spec(now),
    {
        if self.pair_id > 0 {
            return None;
        }
        if (now as i128) - (self.last_send_heart_beat as i128) < (TCP_LIFE_TIME / 10) as i128 {
            return None;
        }
        if (now as i128) - (self.last_recv_heart_beat as i128) < (TCP_LIFE_TIME / 10) as i128 {
            return None;
        }
        if self.status() == Status::Establish || self.status() == Status::CoolDown {
            self.last_send_heart_beat = now;
            let mut buf = be_bytes(self.basic.id);
            reverse(buf.as_mut_slice());
            let r = self.socket_send(buf.as_slice());
            assert(r matches Some(v) && v@ == Self::heart_beat_bytes(self.basic.id));
            r
        } else {
            None
        }
    }

    /// A heart beat from the remote gateway, received at `now`.
    pub fn on_recv_server_heart_beat(&mut self, buf: &[u8], now: i64) -> (r: usize)
        ensures
            r == 0,
            *final(self) == old(self).recv_heart_beat_spec(buf@, now),
    {
        if buf.len() == 8 {
            self.set_status(Status::Establish);
            self.last_recv_heart_beat = now;
        }
        0
    }

}

impl View for LineTcp2Vps {
    type V = LineTcp2Vps;

    open spec fn view(&self) -> LineTcp2Vps {
        *self
    }
}

impl LineStatus for LineTcp2Vps {
    open spec fn status_of(v: LineTcp2Vps) -> Status {
        v.basic.status
    }

    open spec fn with_status(v: LineTcp2Vps, st: Status) -> LineTcp2Vps {
        LineTcp2Vps { basic: BaseLine { status: st, ..v.basic }, ..v }
    }

    proof fn lemma_with_own_status(v: LineTcp2Vps) {
    }

    fn status(&self) -> (r: Status) {
        self.basic.status
    }

    fn set_status(&mut self, new: Status) {
        self.basic.status = new;
    }
}

impl LinePair for LineTcp2Vps {
    open spec fn pair_id_of(v: LineTcp2Vps) -> u64 {
        v.pair_id
    }

    open spec fn with_pair_id(v: LineTcp2Vps, id: u64) -> LineTcp2Vps {
        LineTcp2Vps { pair_id: id, ..v }
    }

    /// A line whose client left cools down before it is lent again.
    open spec fn pair_closed(v: LineTcp2Vps) -> LineTcp2Vps {
        LineTcp2Vps { pair_id: 0, basic: BaseLine { status: Status::CoolDown, ..v.basic }, ..v }
    }

    proof fn lemma_status_keeps_pair(v: LineTcp2Vps, st: Status) {
    }

    fn pair_id(&self) -> (r: u64) {
        self.pair_id
    }

    fn set_pair_id(&mut self, id: u64) {
        self.pair_id = id;
    }

    fn on_pair_close(&mut self) {
        self.set_pair_id(0);
        self.set_status(Status::CoolDown);
    }
}

impl LineNetWork for LineTcp2Vps {
    open spec fn network_data_ok(v: LineTcp2Vps, buf: Seq<u8>) -> bool {
        true
    }

    /// More than eight bytes are traffic for the pair (dropped when there is
    /// none); up to eight bytes are a heart beat.
    open spec fn network_data(v: LineTcp2Vps, buf: Seq<u8>, now: i64) -> (LineTcp2Vps, Seq<u8>, (nat, Option<(Seq<u8>, bool)>)) {
        if buf.len() > 8 {
            (v, buf, (if v.pair_id > 0 { buf.len() } else { 0 }, None))
        } else {
            (v.recv_heart_beat_spec(buf, now), buf, (0, None))
        }
    }

    open spec fn peer_ip_of(v: LineTcp2Vps) -> Seq<char> {
        Seq::empty()
    }

    fn on_network_data(&mut self, buf: &mut [u8], now: i64) -> (r: NetworkOutcome) {
        let len = buf.len();
        if len > 8 {
            if self.pair_id > 0 {
                return NetworkOutcome::forward_only(len);
            } else {
                return NetworkOutcome::forward_only(0);
            }
        }
        self.on_recv_server_heart_beat(buf, now);
        NetworkOutcome::forward_only(0)
    }

    fn forward_len(&self, buf: &[u8], now: i64) -> (r: usize) {
        if buf.len() > 8 && self.pair_id > 0 {
            buf.len()
        } else {
            0
        }
    }

    fn network_data_acceptable(&self, buf: &[u8]) -> (r: bool) {
        true
    }

    /// The remote gateway's address is not kept by the line.
    fn peer_ip(&self) -> (r: String) {
        String::new()
    }
}

impl LineEvent for LineTcp2Vps {

}

} // verus!
