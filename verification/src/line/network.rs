//! What a line does with the bytes that arrive on its socket.
use vstd::prelude::*;
use crate::line::pair::LinePair;
use crate::line::status::{LineStatus, Status};

verus! {

/// Bytes a line wants written back to its own socket.  A `strict` reply is
/// written whatever the line's status and a failed write is fatal; the
/// others went through `socket_send`, which already checked the status.
pub struct Reply {
    pub data: Vec<u8>,
    pub strict: bool,
}

/// The result of handing received bytes to a line: how many bytes of the
/// (possibly rewritten) buffer go on to the line's pair, and an optional
/// reply to the line's own socket.
pub struct NetworkOutcome {
    pub forward: usize,
    pub reply: Option<Reply>,
}

pub open spec fn reply_view(r: Option<Reply>) -> Option<(Seq<u8>, bool)> {
    match r {
        Some(rep) => Some((rep.data@, rep.strict)),
        None => None,
    }
}

/// The bytes of an optional reply.
pub open spec fn reply_bytes(r: Option<(Seq<u8>, bool)>) -> Option<Seq<u8>> {
    match r {
        Some(p) => Some(p.0),
        None => None,
    }
}

impl View for NetworkOutcome {
    type V = (nat, Option<(Seq<u8>, bool)>);

    open spec fn view(&self) -> (nat, Option<(Seq<u8>, bool)>) {
        (self.forward as nat, reply_view(self.reply))
    }
}

impl NetworkOutcome {
    pub fn forward_only(n: usize) -> (r: NetworkOutcome)
        ensures
            r@ == (n as nat, None::<(Seq<u8>, bool)>),
    {
        NetworkOutcome { forward: n, reply: None }
    }
}

/// A line may write to its socket unless its write side is shut or it is
/// on its way out.
pub open spec fn may_send(st: Status) -> bool {
    !(st == Status::WriteClose || st == Status::ReadWriteBothClose || st == Status::DeRegister
        || st == Status::Close)
}

/// The send decision of `socket_send`: the bytes to write, if the line may write.
pub fn send_if_allowed(st: Status, buf: &[u8]) -> (r: Option<Vec<u8>>)
    ensures
        r is Some <==> may_send(st),
        r matches Some(v) ==> v@ == buf@,
{
    if st == Status::WriteClose || st == Status::ReadWriteBothClose || st == Status::DeRegister
        || st == Status::Close {
        None
    } else {
        Some(vstd::slice::slice_to_vec(buf))
    }
}

/// The network side of a line.
pub trait LineNetWork: LinePair {
    /// Inputs on which handling received bytes is defined.
    spec fn network_data_ok(v: Self::V, buf: Seq<u8>) -> bool;

    /// The view, the rewritten buffer and the outcome after receiving `buf`
    /// at time `now` (seconds).
    spec fn network_data(v: Self::V, buf: Seq<u8>, now: i64) -> (Self::V, Seq<u8>, (nat, Option<(Seq<u8>, bool)>));

    /// Bytes that arrived on the line's socket.
    fn on_network_data(&mut self, buf: &mut [u8], now: i64) -> (r: NetworkOutcome)
        requires
            Self::network_data_ok(old(self)@, old(buf)@),
        ensures
            (final(self)@, final(buf)@, r@) == Self::network_data(old(self)@, old(buf)@, now),
    ;

    /// Whether `on_network_data` can take `buf` now.
    fn network_data_acceptable(&self, buf: &[u8]) -> (r: bool)
        ensures
            r == Self::network_data_ok(self@, buf@),
    ;

    /// How many bytes of `buf` receiving it at time `now` passes on to the
    /// pair, without receiving it.
    fn forward_len(&self, buf: &[u8], now: i64) -> (r: usize)
        ensures
            r == Self::network_data(self@, buf@, now).2.0,
    ;

    /// The address the line connects to, as `ip:port` text.
    spec fn peer_ip_of(v: Self::V) -> Seq<char>;

    fn peer_ip(&self) -> (r: String)
        ensures
            r@ == Self::peer_ip_of(self@),
    ;

    /// What `buf` becomes on the wire: the bytes to write if the line may write.
    fn socket_send(&self, buf: &[u8]) -> (r: Option<Vec<u8>>)
        ensures
            r is Some <==> may_send(Self::status_of(self@)),
            r matches Some(v) ==> v@ == buf@,
    {
        let st = self.status();
        send_if_allowed(st, buf)
    }
}

} // verus!
