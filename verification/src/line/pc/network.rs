//! The SOCKS5 exchange with a local client.
use vstd::prelude::*;
use crate::config::{ATYP_HOST_NAME, ATYP_INDEX};
use crate::global::{reverse, spec_reverse, spec_u8r, u8r};
use crate::line::network::{LineNetWork, NetworkOutcome, Reply};
use crate::line::pc::LinePc;

verus! {

/// How far the SOCKS5 exchange has got.
#[derive(PartialEq, Eq, Structural, Clone, Copy, Debug)]
pub enum Step {
    Raw,
    HelloDone,
    SniDone,
    ClientHelloDone,
}

/// The SOCKS5 greeting answer: version 5, no authentication.
pub open spec fn s5_hello_reply() -> Seq<u8> {
    seq![5u8, 0u8]
}

/// The SOCKS5 connect answer: success, IPv4 0.0.0.0:0.
pub open spec fn s5_connect_reply() -> Seq<u8> {
    seq![5u8, 0u8, 0u8, 1u8, 0u8, 0u8, 0u8, 0u8, 0u8, 0u8]
}

/// A SOCKS5 connect request by host name, with the host and port present.
pub open spec fn s5_request_ok(buf: Seq<u8>) -> bool {
    &&& buf.len() > ATYP_INDEX + 1
    &&& buf[0] == 5
    &&& buf[ATYP_INDEX as int] == ATYP_HOST_NAME
    &&& buf.len() >= ATYP_INDEX + 2 + buf[ATYP_INDEX + 1] + 2
}

/// Whether `buf` is a connect request that can be read (`s5_request_ok`).
pub fn s5_request_acceptable(buf: &[u8]) -> (r: bool)
    ensures
        r == s5_request_ok(buf@),
{
    buf.len() > ATYP_INDEX + 1 && buf[0] == 5 && buf[ATYP_INDEX] == ATYP_HOST_NAME && buf.len() >= ATYP_INDEX + 2
        + buf[ATYP_INDEX + 1] as usize + 2
}

/// The request as passed on to the remote gateway: the version byte zeroed
/// and host and port obfuscated.
pub open spec fn s5_request_rewritten(buf: Seq<u8>) -> Seq<u8> {
    let start = ATYP_INDEX + 2;
    let stop = start + buf[ATYP_INDEX + 1];
    Seq::new(
        buf.len(),
        |i: int|
            if i == 0 {
                0u8
            } else if start <= i < stop + 2 {
                spec_u8r(buf[i])
            } else {
                buf[i]
            },
    )
}

impl LinePc {
    fn s5_hello(&mut self) -> (r: NetworkOutcome)
        ensures
            r@ == (0nat, Some((s5_hello_reply(), true))),
            final(self)@ == (LinePc { step: Step::HelloDone, ..old(self)@ }),
    {
        let mut data: Vec<u8> = Vec::new();
        data.push(5);
        data.push(0);
        assert(data@ =~= s5_hello_reply());
        self.step = Step::HelloDone;
        NetworkOutcome { forward: 0, reply: Some(Reply { data, strict: true }) }
    }

    /// The connect request: it is answered with success and passed on with
    /// the version byte zeroed and host and port obfuscated.
    pub fn s5_sni(&mut self, buf: &mut [u8]) -> (r: NetworkOutcome)
        requires
            s5_request_ok(old(buf)@),
        ensures
            r@ == (old(buf)@.len(), Some((s5_connect_reply(), true))),
            final(buf)@ == s5_request_rewritten(old(buf)@),
            final(self)@ == (LinePc { step: Step::SniDone, ..old(self)@ }),
    {
        buf[0] = 0;
        let len = buf[ATYP_INDEX + 1] as usize;
        let start = ATYP_INDEX + 2;
        let stop = start + len;
        let ghost b0 = buf@;
        for i in start..stop + 2
            invariant
                start == ATYP_INDEX + 2,
                stop == start + len,
                len == old(buf)@[ATYP_INDEX + 1],
                buf@.len() == old(buf)@.len(),
                buf@.len() >= stop + 2,
                forall|j: int|
                    0 <= j < buf@.len() ==> #[trigger] buf@[j] == (if j == 0 {
                        0u8
                    } else if start <= j < i {
                        spec_u8r(old(buf)@[j])
                    } else {
                        old(buf)@[j]
                    }),
        {
            buf[i] = u8r(buf[i]);
        }
        assert(buf@ =~= s5_request_rewritten(old(buf)@));
        let mut data: Vec<u8> = Vec::new();
        data.push(5);
        data.push(0);
        data.push(0);
        data.push(1);
        data.push(0);
        data.push(0);
        data.push(0);
        data.push(0);
        data.push(0);
        data.push(0);
        assert(data@ =~= s5_connect_reply());
        self.step = Step::SniDone;
        NetworkOutcome { forward: buf.len(), reply: Some(Reply { data, strict: true }) }
    }

    fn s5_client_hello(&mut self, buf: &mut [u8]) -> (r: NetworkOutcome)
        ensures
            r@ == (old(buf)@.len(), None::<(Seq<u8>, bool)>),
            final(buf)@ == spec_reverse(old(buf)@),
            final(self)@ == (LinePc { step: Step::ClientHelloDone, ..old(self)@ }),
    {
        reverse(buf);
        self.step = Step::ClientHelloDone;
        NetworkOutcome::forward_only(buf.len())
    }
}

impl LineNetWork for LinePc {
    /// The connect request must be well formed when it is expected.
    open spec fn network_data_ok(v: LinePc, buf: Seq<u8>) -> bool {
        v.step == Step::HelloDone ==> s5_request_ok(buf)
    }

    /// Greeting, connect request, then the obfuscated first client message;
    /// after that, traffic is passed on as it is.
    open spec fn network_data(v: LinePc, buf: Seq<u8>, now: i64) -> (LinePc, Seq<u8>, (nat, Option<(Seq<u8>, bool)>)) {
        match v.step {
            Step::Raw => (LinePc { step: Step::HelloDone, ..v }, buf, (0, Some((s5_hello_reply(), true)))),
            Step::HelloDone => (
                LinePc { step: Step::SniDone, ..v },
                s5_request_rewritten(buf),
                (buf.len(), Some((s5_connect_reply(), true))),
            ),
            Step::SniDone => (LinePc { step: Step::ClientHelloDone, ..v }, spec_reverse(buf), (buf.len(), None)),
            Step::ClientHelloDone => (v, buf, (buf.len(), None)),
        }
    }

    open spec fn peer_ip_of(v: LinePc) -> Seq<char> {
        Seq::empty()
    }

    fn on_network_data(&mut self, buf: &mut [u8], now: i64) -> (r: NetworkOutcome) {
        match self.step {
            Step::Raw => self.s5_hello(),
            Step::HelloDone => self.s5_sni(buf),
            Step::SniDone => self.s5_client_hello(buf),
            Step::ClientHelloDone => NetworkOutcome::forward_only(buf.len()),
        }
    }

    fn forward_len(&self, buf: &[u8], now: i64) -> (r: usize) {
        if self.step == Step::Raw {
            0
        } else {
            buf.len()
        }
    }

    fn network_data_acceptable(&self, buf: &[u8]) -> (r: bool) {
        self.step != Step::HelloDone || s5_request_acceptable(buf)
    }

    /// A client line does not connect anywhere itself.
    fn peer_ip(&self) -> (r: String) {
        String::new()
    }
}

} // verus!
