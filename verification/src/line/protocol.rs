//! What one end of a tunnel writes and the other end reads: the laws that
//! tie a tunnel line and a SOCKS5 client line on one gateway to the client
//! line that serves them on the other.
use vstd::prelude::*;
use crate::config::{ATYP_HOST_NAME, ATYP_INDEX, TCP_LIFE_TIME};
use crate::global::{
    lemma_be_bytes_roundtrip, lemma_reverse_involution, lemma_u8r_involution, spec_be_bytes,
    spec_reverse, spec_u8r,
};
use crate::line::mainland::MainLandView;
use crate::line::mainland::heart_beat::{heart_beat_buffer, heart_beat_id};
use crate::line::mainland::network::{host_bytes, host_port, host_request_ok, Step as MainLandStep};
use crate::line::network::LineNetWork;
use crate::line::mainland::LineMainLand;
use crate::line::pc::LinePc;
use crate::line::pc::network::{s5_request_ok, s5_request_rewritten, Step as PcStep};
use crate::line::status::Status;
use crate::line::tcp2vps::LineTcp2Vps;

verus! {

/// The host name bytes of a SOCKS5 connect request.
pub open spec fn s5_host(buf: Seq<u8>) -> Seq<u8> {
    buf.subrange(ATYP_INDEX + 2, ATYP_INDEX + 2 + buf[ATYP_INDEX + 1])
}

/// The port of a SOCKS5 connect request: the two bytes after the host,
/// big-endian.
pub open spec fn s5_port(buf: Seq<u8>) -> int {
    let stop = ATYP_INDEX + 2 + buf[ATYP_INDEX + 1];
    buf[stop] as int * 256 + buf[stop + 1] as int
}

/// Law: the heart beat a tunnel line sends is read, on the other side, as
/// a heart beat from that line's id.
pub proof fn lemma_heart_beat_read_back(id: u64)
    ensures
        LineTcp2Vps::heart_beat_bytes(id).len() == 8,
        heart_beat_id(LineTcp2Vps::heart_beat_bytes(id)) == id,
        heart_beat_buffer(LineTcp2Vps::heart_beat_bytes(id)) == spec_be_bytes(id),
{
    lemma_be_bytes_roundtrip(id);
    lemma_reverse_involution(spec_be_bytes(id));
}

/// Law: the heart beat a client line answers with establishes the tunnel
/// line that receives it and restarts its life time.
pub proof fn lemma_heart_beat_answer_establishes(h: LineTcp2Vps, id: u64, now: i64)
    ensures
        h.recv_heart_beat_spec(spec_be_bytes(id), now).basic.status == Status::Establish,
        h.recv_heart_beat_spec(spec_be_bytes(id), now).last_recv_heart_beat == now,
        !h.recv_heart_beat_spec(spec_be_bytes(id), now).tcp_timeout_spec(now),
{
    lemma_be_bytes_roundtrip(id);
}

/// Law: keep-alive is rate limited: right after a tunnel line sent a heart
/// beat at `now`, another keep-alive at `now` sends nothing and changes
/// nothing; and a tunnel line that carries a client never sends one.
pub proof fn lemma_keep_alive_rate(h: LineTcp2Vps, now: i64)
    ensures
        ({
            let h1 = h.send_heart_beat_spec(now).0;
            h1.send_heart_beat_spec(now) == (h1, None::<Seq<u8>>)
        }),
        h.pair_id > 0 ==> h.send_heart_beat_spec(now) == (h, None::<Seq<u8>>),
{
    assert(TCP_LIFE_TIME / 10 > 0);
}

/// Law: the connect request a SOCKS5 client line passes on is read, on the
/// other side, as a request for the same host and port.
pub proof fn lemma_request_read_back(buf: Seq<u8>)
    requires
        s5_request_ok(buf),
    ensures
        host_request_ok(s5_request_rewritten(buf)),
        s5_request_rewritten(buf)[ATYP_INDEX as int] == ATYP_HOST_NAME,
        host_bytes(s5_request_rewritten(buf)) == s5_host(buf),
        host_port(s5_request_rewritten(buf)) == s5_port(buf),
{
    let r = s5_request_rewritten(buf);
    let len = buf[ATYP_INDEX + 1];
    let start = ATYP_INDEX + 2;
    let stop = start + len;
    assert(r[ATYP_INDEX + 1] == len);
    let h = r.subrange(start as int, stop as int);
    assert forall|i: int| 0 <= i < h.len() implies #[trigger] spec_reverse(h)[i] == s5_host(buf)[i] by {
        lemma_u8r_involution(buf[start + i]);
    }
    assert(spec_reverse(h) =~= s5_host(buf));
    lemma_u8r_involution(buf[stop as int]);
    lemma_u8r_involution(buf[stop + 1]);
    assert(r[stop as int] == spec_u8r(buf[stop as int]));
    assert(r[stop + 1] == spec_u8r(buf[stop + 1]));
}

/// Law: decoding the passed-on request on the other side reads the whole
/// request (`host length + 7` bytes), the request's port and, whenever the
/// host name is UTF-8, its host.
pub proof fn lemma_request_decoded(v: MainLandView, buf: Seq<u8>)
    requires
        s5_request_ok(buf),
    ensures
        v.decode_host_name(s5_request_rewritten(buf)).1 == buf[ATYP_INDEX + 1] + 7,
        v.decode_host_name(s5_request_rewritten(buf)).0.peer_port == s5_port(buf),
        vstd::utf8::valid_utf8(s5_host(buf)) ==> v.decode_host_name(s5_request_rewritten(buf)).0.peer_ip
            == vstd::utf8::decode_utf8(s5_host(buf)),
{
    lemma_request_read_back(buf);
    assert(s5_request_rewritten(buf)[ATYP_INDEX + 1] == buf[ATYP_INDEX + 1]);
}

/// Law: a client line that receives the passed-on request (as its first
/// message, not mistaken for a heart beat) takes the request's port, and
/// its host whenever the host name is UTF-8.
pub proof fn lemma_request_reaches_client_line(v: MainLandView, buf: Seq<u8>, now: i64)
    requires
        s5_request_ok(buf),
        buf.len() != 8,
        v.step == MainLandStep::Raw,
    ensures
        LineMainLand::network_data_ok(v, s5_request_rewritten(buf)),
        LineMainLand::network_data(v, s5_request_rewritten(buf), now).0.peer_port == s5_port(buf),
        vstd::utf8::valid_utf8(s5_host(buf)) ==> LineMainLand::network_data(v, s5_request_rewritten(buf), now).0.peer_ip
            == vstd::utf8::decode_utf8(s5_host(buf)),
        LineMainLand::network_data(v, s5_request_rewritten(buf), now).0.step == MainLandStep::WaitingDnsCollect,
        LineMainLand::network_data(v, s5_request_rewritten(buf), now).2.0 == 0,
{
    lemma_request_read_back(buf);
    let r = s5_request_rewritten(buf);
    assert(r.len() == buf.len());
    assert(heart_beat_id(r) == 0);
    assert(heart_beat_buffer(r) == r);
}

/// Law: the client's first message, obfuscated by the SOCKS5 client line,
/// is kept de-obfuscated by a client line still waiting for its outgoing
/// line, and passed on as it was by one whose outgoing line is up.
pub proof fn lemma_client_hello_crosses(pc: LinePc, m: MainLandView, x: Seq<u8>, now: i64)
    requires
        pc.step == PcStep::SniDone,
        x.len() != 8,
    ensures
        ({
            let (pc2, out, o) = LinePc::network_data(pc, x, now);
            &&& o.0 == x.len()
            &&& (m.step == MainLandStep::WaitingDnsCollect || m.step == MainLandStep::WaitingDnsResult || m.step
                == MainLandStep::DnsQuerySuccess) ==> LineMainLand::network_data(
                m,
                out,
                now,
            ).0.client_hello_data == m.client_hello_data + x
            &&& m.step == MainLandStep::WorldConnectSuccess ==> ({
                let (m2, b2, o2) = LineMainLand::network_data(m, out, now);
                b2.take(o2.0 as int) == x
            })
        }),
{
    lemma_reverse_involution(x);
    let out = spec_reverse(x);
    assert(out.len() == x.len());
    assert(heart_beat_buffer(out) == out);
    assert(spec_reverse(out).take(out.len() as int) =~= spec_reverse(out));
}

} // verus!
