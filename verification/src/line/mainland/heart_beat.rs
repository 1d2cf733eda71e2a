//! Heart beats between a local client and this gateway.
use vstd::prelude::*;
use crate::global::{be_bytes, from_be_bytes, opt_bytes, reverse, spec_be_bytes, spec_from_be_bytes, spec_reverse};
use crate::line::base_line::BaseLine;
use crate::line::mainland::{LineMainLand, MainLandView};
use crate::line::mainland::network::Step;
use crate::line::network::{may_send, reply_bytes, LineNetWork};
use crate::line::status::{LineStatus, Status};

verus! {

/// The client id carried by a received heart beat: eight obfuscated
/// big-endian bytes; 0 when `buf` is not eight bytes long.
pub open spec fn heart_beat_id(buf: Seq<u8>) -> u64 {
    if buf.len() == 8 {
        spec_from_be_bytes(spec_reverse(buf))
    } else {
        0
    }
}

/// The buffer after looking for a heart beat in it: eight-byte buffers are
/// de-obfuscated in place.
pub open spec fn heart_beat_buffer(buf: Seq<u8>) -> Seq<u8> {
    if buf.len() == 8 {
        spec_reverse(buf)
    } else {
        buf
    }
}

impl MainLandView {
    /// The heart beat the gateway answers with: its own id, big-endian.
    pub open spec fn heart_beat_reply(self) -> Option<(Seq<u8>, bool)> {
        if may_send(self.basic.status) {
            Some((spec_be_bytes(self.basic.id), false))
        } else {
            None
        }
    }

    /// The view and the reply after a heart beat from client `id`.
    pub open spec fn recv_heart_beat(self, id: u64) -> (MainLandView, Option<(Seq<u8>, bool)>) {
        if self.pair_id > 0 {
            (self, None)
        } else if self.basic.status == Status::Raw {
            (
                MainLandView {
                    basic: BaseLine { status: Status::Establish, ..self.basic },
                    step: Step::Raw,
                    ..self
                },
                self.heart_beat_reply(),
            )
        } else if self.basic.status == Status::Establish {
            (self, self.heart_beat_reply())
        } else if self.basic.status == Status::CoolDown {
            (MainLandView { basic: BaseLine { status: Status::Raw, ..self.basic }, ..self }, None)
        } else {
            (self, None)
        }
    }
}

impl LineMainLand {
    /// The client id in `buf` if it is a heart beat, else 0.
    pub fn try_decode_heart_beat(&self, buf: &mut [u8]) -> (r: u64)
        ensures
            r == heart_beat_id(old(buf)@),
            final(buf)@ == heart_beat_buffer(old(buf)@),
    {
        if buf.len() != 8 {
            return 0;
        }
        reverse(buf);
        self.decode_heart_beat(buf)
    }

    fn decode_heart_beat(&self, buf: &[u8]) -> (r: u64)
        ensures
            r == (if buf@.len() == 8 { spec_from_be_bytes(buf@) } else { 0 }),
    {
        if buf.len() == 8 {
            from_be_bytes(buf)
        } else {
            0
        }
    }

    /// A heart beat from client `id`; returns the heart beat to answer with.
    pub fn recv_heart_beat(&mut self, id: u64) -> (r: Option<Vec<u8>>)
        ensures
            final(self)@ == old(self)@.recv_heart_beat(id).0,
            opt_bytes(r) == reply_bytes(old(self)@.recv_heart_beat(id).1),
    {
        if self.pair_id > 0 {
            return None;
        }
        match self.status() {
            Status::Raw => {
                let r = self.send_heart_beat();
                self.set_status(Status::Establish);
                self.step = Step::Raw;
                r
            },
            Status::Establish => self.send_heart_beat(),
            Status::CoolDown => {
                self.set_status(Status::Raw);
                None
            },
            _ => None,
        }
    }

    /// The heart beat this gateway sends to the client, if the line may write.
    pub fn send_heart_beat(&self) -> (r: Option<Vec<u8>>)
        ensures
            opt_bytes(r) == reply_bytes(self@.heart_beat_reply()),
    {
        let buf = be_bytes(self.basic.id);
        self.socket_send(buf.as_slice())
    }
}

} // verus!
