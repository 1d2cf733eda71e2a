//! What a client line does with the bytes its client sends.
use vstd::prelude::*;
use vstd::utf8::{decode_utf8, valid_utf8};
use crate::config::{ATYP_HOST_NAME, ATYP_INDEX};
use crate::global::{reverse, spec_reverse, u8r, spec_u8r};
use crate::line::mainland::{LineMainLand, MainLandView};
use crate::line::mainland::heart_beat::{heart_beat_buffer, heart_beat_id};
use crate::line::network::{LineNetWork, NetworkOutcome, Reply};
use crate::line::pair::LinePair;
use crate::text::string_from_utf8;

verus! {

/// How far a client line has got in setting up its connection.
#[derive(PartialEq, Eq, Structural, Clone, Copy, Debug)]
pub enum Step {
    Raw,
    WaitingDnsCollect,
    WaitingDnsResult,
    DnsQuerySuccess,
    WorldConnectSuccess,
    ClientHelloDone,
}

/// A request that names its host can be read without running off the end:
/// it has an address-type byte, and a host-name request holds the host and
/// the two port bytes.
pub open spec fn host_request_ok(buf: Seq<u8>) -> bool {
    buf.len() > ATYP_INDEX && (buf[ATYP_INDEX as int] == ATYP_HOST_NAME ==> buf.len() > ATYP_INDEX + 1
        && buf.len() > buf[ATYP_INDEX + 1] + ATYP_INDEX + 3)
}

/// Whether `buf` is a request that can be read (`host_request_ok`).
pub fn host_request_acceptable(buf: &[u8]) -> (r: bool)
    ensures
        r == host_request_ok(buf@),
{
    if buf.len() <= ATYP_INDEX {
        return false;
    }
    if buf[ATYP_INDEX] != ATYP_HOST_NAME {
        return true;
    }
    buf.len() > ATYP_INDEX + 1 && buf.len() > buf[ATYP_INDEX + 1] as usize + ATYP_INDEX + 3
}

/// The host name bytes of a host-name request, de-obfuscated.
pub open spec fn host_bytes(buf: Seq<u8>) -> Seq<u8> {
    spec_reverse(buf.subrange(ATYP_INDEX + 2, ATYP_INDEX + 2 + buf[ATYP_INDEX + 1]))
}

/// The port of a host-name request: the two (obfuscated) bytes after the host.
pub open spec fn host_port(buf: Seq<u8>) -> u16 {
    let stop = ATYP_INDEX + buf[ATYP_INDEX + 1] + 3;
    (spec_u8r(buf[stop - 1]) as int * 256 + spec_u8r(buf[stop]) as int) as u16
}

impl MainLandView {
    /// The view after reading a request, and the length of the request.
    /// A host-name request sets the host (when it is valid UTF-8) and the
    /// port; any other address type is skipped with length 1.
    pub open spec fn decode_host_name(self, buf: Seq<u8>) -> (MainLandView, nat) {
        if buf[ATYP_INDEX as int] == ATYP_HOST_NAME {
            let stop = ATYP_INDEX + buf[ATYP_INDEX + 1] + 3;
            (
                MainLandView {
                    peer_ip: if valid_utf8(host_bytes(buf)) {
                        decode_utf8(host_bytes(buf))
                    } else {
                        self.peer_ip
                    },
                    peer_port: host_port(buf),
                    ..self
                },
                (stop + 1) as nat,
            )
        } else {
            (self, 1)
        }
    }

    /// Client bytes kept until the outgoing line is up, de-obfuscated.
    pub open spec fn save_client_hello_data(self, data: Seq<u8>) -> MainLandView {
        MainLandView { client_hello_data: self.client_hello_data + spec_reverse(data), ..self }
    }

    /// The first message: the request, possibly followed by client data.
    pub open spec fn recv_sni_msg(self, buf: Seq<u8>) -> MainLandView {
        let (v, n) = self.decode_host_name(buf);
        let v2 = if buf.len() > n {
            v.save_client_hello_data(buf.subrange(n as int, buf.len() as int))
        } else {
            v
        };
        MainLandView { step: Step::WaitingDnsCollect, ..v2 }
    }
}

impl LineMainLand {
    fn recv_sni_msg(&mut self, buf: &[u8]) -> (r: usize)
        requires
            host_request_ok(buf@),
        ensures
            r == 0,
            final(self)@ == old(self)@.recv_sni_msg(buf@),
    {
        let buf_len = buf.len();
        let len = self.decode_host_name(buf);
        if buf_len > len {
            let rest = vstd::slice::slice_subrange(buf, len, buf_len);
            self.save_client_hello_data(rest);
        }
        self.step = Step::WaitingDnsCollect;
        0
    }

    fn save_client_hello_data(&mut self, buf: &[u8]) -> (r: usize)
        ensures
            r == 0,
            final(self)@ == old(self)@.save_client_hello_data(buf@),
    {
        let n = buf.len();
        for i in 0..n
            invariant
                n == buf@.len(),
                self@ == old(self)@.save_client_hello_data(buf@.subrange(0, i as int)),
        {
            let b = u8r(buf[i]);
            self.client_hello_data.push(b);
            assert(self@.client_hello_data =~= old(self)@.save_client_hello_data(
                buf@.subrange(0, i + 1),
            ).client_hello_data);
        }
        assert(buf@.subrange(0, n as int) =~= buf@);
        0
    }

    fn client_hello(&mut self, buf: &mut [u8]) -> (r: usize)
        ensures
            r == old(buf)@.len(),
            final(buf)@ == spec_reverse(old(buf)@),
            final(self)@ == (MainLandView { step: Step::ClientHelloDone, ..old(self)@ }),
    {
        reverse(buf);
        self.step = Step::ClientHelloDone;
        buf.len()
    }

    /// Reads a request; returns its length.
    pub fn decode_host_name(&mut self, buf: &[u8]) -> (r: usize)
        requires
            host_request_ok(buf@),
        ensures
            (final(self)@, r as nat) == old(self)@.decode_host_name(buf@),
    {
        let mut stop: usize = 0;
        let atyp = buf[ATYP_INDEX];
        if atyp == ATYP_HOST_NAME {
            let len = buf[ATYP_INDEX + 1] as usize;
            stop = ATYP_INDEX + len + 3;
            let mut vec: Vec<u8> = Vec::new();
            let start = ATYP_INDEX + 2;
            for i in start..start + len
                invariant
                    start == ATYP_INDEX + 2,
                    len == buf@[ATYP_INDEX + 1],
                    buf@.len() > start + len,
                    vec@ == spec_reverse(buf@.subrange(start as int, i as int)),
            {
                vec.push(u8r(buf[i]));
                assert(vec@ =~= spec_reverse(buf@.subrange(start as int, i + 1)));
            }
            assert(vec@ == host_bytes(buf@));
            match string_from_utf8(vec) {
                Some(s) => self.peer_ip = s,
                None => {},
            }
            let p1 = u8r(buf[stop - 1]);
            let p2 = u8r(buf[stop]);
            self.peer_port = (p1 as u16) * 256 + (p2 as u16);
        }
        stop + 1
    }
}

impl LineNetWork for LineMainLand {
    /// A request must be readable when one is expected.
    open spec fn network_data_ok(v: MainLandView, buf: Seq<u8>) -> bool {
        heart_beat_id(buf) == 0 && v.step == Step::Raw ==> host_request_ok(heart_beat_buffer(buf))
    }

    /// A heart beat is answered; otherwise the step decides: the first
    /// message is the request, later bytes are kept until the outgoing line
    /// is up, then the kept-up bytes' successor is passed on de-obfuscated.
    open spec fn network_data(v: MainLandView, buf: Seq<u8>, now: i64) -> (MainLandView, Seq<u8>, (nat, Option<(Seq<u8>, bool)>)) {
        let id = heart_beat_id(buf);
        let b = heart_beat_buffer(buf);
        if id > 0 {
            let (v2, reply) = v.recv_heart_beat(id);
            (v2, b, (0, reply))
        } else {
            match v.step {
                Step::Raw => (v.recv_sni_msg(b), b, (0, None)),
                Step::WaitingDnsCollect | Step::WaitingDnsResult | Step::DnsQuerySuccess => (
                    v.save_client_hello_data(b),
                    b,
                    (0, None),
                ),
                Step::WorldConnectSuccess => (
                    MainLandView { step: Step::ClientHelloDone, ..v },
                    spec_reverse(b),
                    (b.len(), None),
                ),
                Step::ClientHelloDone => (v, b, (if v.pair_id > 0 { b.len() } else { 0 }, None)),
            }
        }
    }

    open spec fn peer_ip_of(v: MainLandView) -> Seq<char> {
        Seq::empty()
    }

    fn on_network_data(&mut self, buf: &mut [u8], now: i64) -> (r: NetworkOutcome) {
        let id = self.try_decode_heart_beat(buf);
        if id > 0 {
            let reply = self.recv_heart_beat(id);
            return match reply {
                Some(data) => NetworkOutcome { forward: 0, reply: Some(Reply { data, strict: false }) },
                None => NetworkOutcome::forward_only(0),
            };
        }
        match self.step {
            Step::Raw => {
                let n = self.recv_sni_msg(buf);
                NetworkOutcome::forward_only(n)
            },
            Step::WaitingDnsCollect | Step::WaitingDnsResult | Step::DnsQuerySuccess => {
                let n = self.save_client_hello_data(buf);
                NetworkOutcome::forward_only(n)
            },
            Step::WorldConnectSuccess => {
                let n = self.client_hello(buf);
                NetworkOutcome::forward_only(n)
            },
            Step::ClientHelloDone => {
                if self.pair_id > 0 {
                    NetworkOutcome::forward_only(buf.len())
                } else {
                    NetworkOutcome::forward_only(0)
                }
            },
        }
    }

    fn forward_len(&self, buf: &[u8], now: i64) -> (r: usize) {
        let mut v = vstd::slice::slice_to_vec(buf);
        let id = self.try_decode_heart_beat(v.as_mut_slice());
        if id > 0 {
            return 0;
        }
        match self.step {
            Step::WorldConnectSuccess => buf.len(),
            Step::ClientHelloDone => {
                if self.pair_id > 0 {
                    buf.len()
                } else {
                    0
                }
            },
            _ => 0,
        }
    }

    fn network_data_acceptable(&self, buf: &[u8]) -> (r: bool) {
        if self.step != Step::Raw {
            return true;
        }
        let mut v = vstd::slice::slice_to_vec(buf);
        let id = self.try_decode_heart_beat(v.as_mut_slice());
        id != 0 || host_request_acceptable(v.as_slice())
    }

    /// A client line does not connect anywhere itself.
    fn peer_ip(&self) -> (r: String) {
        String::new()
    }
}

impl LineMainLand {
    /// The host's address could not be found; the line stays as it is.
    pub fn dns_query_fail(&mut self)
        ensures
            final(self)@ == old(self)@,
    {
    }

    /// The host was found and outgoing line `world_id` created for it.
    pub fn dns_query_success(&mut self, world_id: u64)
        ensures
            final(self)@ == (MainLandView { pair_id: world_id, step: Step::DnsQuerySuccess, ..old(self)@ }),
    {
        self.set_pair_id(world_id);
        self.step = Step::DnsQuerySuccess;
    }

    /// The outgoing line has connected.
    pub fn world_connect_success(&mut self)
        ensures
            final(self)@ == (MainLandView { step: Step::WorldConnectSuccess, ..old(self)@ }),
    {
        self.step = Step::WorldConnectSuccess;
    }

    /// Once the outgoing line is up, the client bytes kept so far are handed
    /// out once (when there are any).
    pub fn move_out_client_hello_data(&mut self) -> (r: Option<Vec<u8>>)
        ensures
            old(self)@.step == Step::WorldConnectSuccess && old(self)@.client_hello_data.len() > 0 ==> {
                &&& r matches Some(d) && d@ == old(self)@.client_hello_data
                &&& final(self)@ == (MainLandView {
                    client_hello_data: Seq::empty(),
                    step: Step::ClientHelloDone,
                    ..old(self)@
                })
            },
            !(old(self)@.step == Step::WorldConnectSuccess && old(self)@.client_hello_data.len() > 0) ==> {
                &&& r is None
                &&& final(self)@ == old(self)@
            },
    {
        if self.step != Step::WorldConnectSuccess {
            return None;
        }
        let len = self.client_hello_data.len();
        if len > 0 {
            let data = self.client_hello_data.clone();
            self.client_hello_data.clear();
            self.step = Step::ClientHelloDone;
            Some(data)
        } else {
            None
        }
    }
}

} // verus!
