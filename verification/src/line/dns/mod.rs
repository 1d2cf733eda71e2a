//! The line to the DNS server: it sends the host-name queries of the client
//! lines and collects the answers.
use vstd::prelude::*;
use crate::global::opt_bytes;
use crate::line::event::LineEvent;
use crate::line::network::{LineNetWork, NetworkOutcome};
use crate::line::pair::LinePair;
use crate::line::status::{LineStatus, Status};
use crate::text::{ipv4_string, ipv4_text};

verus! {

/// What a DNS reply says, as far as the gateway reads it: the query id, the
/// response code and, for each answer record, its IPv4 address if it is an
/// A record.
pub struct DnsMessage {
    pub id: u16,
    pub rcode: u16,
    pub answers: Seq<Option<u32>>,
}

pub struct DnsReply {
    pub id: u16,
    pub rcode: u16,
    pub answers: Vec<Option<u32>>,
}

impl View for DnsReply {
    type V = DnsMessage;

    open spec fn view(&self) -> DnsMessage {
        DnsMessage { id: self.id, rcode: self.rcode, answers: self.answers@ }
    }
}

pub open spec fn opt_message(r: Option<DnsReply>) -> Option<DnsMessage> {
    match r {
        Some(m) => Some(m@),
        None => None,
    }
}

/// The message `simple_dns::Packet::parse` reads from `buf`, or `None` when
/// it rejects the bytes.
pub uninterp spec fn dns_parse(buf: Seq<u8>) -> Option<DnsMessage>;

/// The bytes `simple_dns` builds for a recursive query of the A record of
/// `host` with query id `id`, or `None` when it rejects the host name.
pub uninterp spec fn dns_query_packet(id: u16, host: Seq<char>) -> Option<Seq<u8>>;

/// Reads a DNS message with `simple_dns::Packet::parse`.  The contract only
/// names the result: the DNS wire format is the crate's business.
#[verifier::external_body]
fn parse_packet(buf: &[u8]) -> (r: Option<DnsReply>)
    ensures
        opt_message(r) == dns_parse(buf@),
{
    match simple_dns::Packet::parse(buf) {
        Ok(p) => Some(DnsReply {
            id: p.id(),
            rcode: p.rcode() as u16,
            answers: p.answers.iter().map(|rr| match &rr.rdata {
                simple_dns::rdata::RData::A(a) => Some(a.address),
                _ => None,
            }).collect(),
        }),
        Err(_) => None,
    }
}

/// Builds a recursive A/IN query for `host` with `simple_dns`
/// (`Packet::new_query`, `Name::new`, `Question::new`,
/// `build_bytes_vec_compressed`).  The contract only names the result.
#[verifier::external_body]
fn build(id: u16, host: &str) -> (r: Option<Vec<u8>>)
    ensures
        opt_bytes(r) == dns_query_packet(id, host@),
{
    let mut packet = simple_dns::Packet::new_query(id);
    packet.set_flags(simple_dns::PacketFlag::RECURSION_DESIRED);
    let qname = simple_dns::Name::new(host).ok()?;
    let question = simple_dns::Question::new(
        qname,
        simple_dns::TYPE::A.into(),
        simple_dns::CLASS::IN.into(),
        false,
    );
    packet.questions.push(question);
    packet.build_bytes_vec_compressed().ok()
}

/// The address of the first A record among the answers.
pub open spec fn first_a(answers: Seq<Option<u32>>) -> Option<u32>
    decreases answers.len(),
{
    if answers.len() == 0 {
        None
    } else if answers[0] is Some {
        answers[0]
    } else {
        first_a(answers.drop_first())
    }
}

/// Law: the address a reply yields is that of its first A record, wherever
/// it stands among the answers: answers before it that are no A record
/// (a CNAME, say) are passed over.
pub proof fn lemma_first_a_is_first(answers: Seq<Option<u32>>, k: int)
    requires
        0 <= k < answers.len(),
        answers[k] is Some,
        forall|j: int| 0 <= j < k ==> #[trigger] answers[j] is None,
    ensures
        first_a(answers) == answers[k],
    decreases k,
{
    if k > 0 {
        let rest = answers.drop_first();
        assert(answers[0] is None);
        assert forall|j: int| 0 <= j < k - 1 implies #[trigger] rest[j] is None by {
            assert(rest[j] == answers[j + 1]);
        }
        assert(rest[k - 1] == answers[k]);
        lemma_first_a_is_first(rest, k - 1);
    }
}

/// Law: answers without an A record yield no address.
pub proof fn lemma_first_a_none(answers: Seq<Option<u32>>)
    requires
        forall|j: int| 0 <= j < answers.len() ==> #[trigger] answers[j] is None,
    ensures
        first_a(answers) is None,
    decreases answers.len(),
{
    if answers.len() > 0 {
        let rest = answers.drop_first();
        assert(answers[0] is None);
        assert forall|j: int| 0 <= j < rest.len() implies #[trigger] rest[j] is None by {
            assert(rest[j] == answers[j + 1]);
        }
        lemma_first_a_none(rest);
    }
}

/// Law: a reply without error whose first A record stands at `k` answers
/// its query id with that record's address, in dotted-quad notation.
pub proof fn lemma_reply_address(buf: Seq<u8>, k: int)
    requires
        dns_parse(buf) is Some,
        dns_parse(buf)->0.rcode == 0,
        0 <= k < dns_parse(buf)->0.answers.len(),
        dns_parse(buf)->0.answers[k] is Some,
        forall|j: int| 0 <= j < k ==> #[trigger] dns_parse(buf)->0.answers[j] is None,
    ensures
        dns_decode(buf) == (dns_parse(buf)->0.id as u64, Some(ipv4_text(dns_parse(buf)->0.answers[k]->0))),
{
    lemma_first_a_is_first(dns_parse(buf)->0.answers, k);
}

/// What a reply tells a client line: (query id, its host's address). A
/// reply that does not parse answers id 0; an error reply has no address.
pub open spec fn dns_decode(buf: Seq<u8>) -> (u64, Option<Seq<char>>) {
    match dns_parse(buf) {
        None => (0, None),
        Some(m) => if m.rcode == 0 {
            (
                m.id as u64,
                match first_a(m.answers) {
                    Some(a) => Some(ipv4_text(a)),
                    None => None,
                },
            )
        } else {
            (m.id as u64, None)
        },
    }
}

pub open spec fn opt_text(s: Option<String>) -> Option<Seq<char>> {
    match s {
        Some(t) => Some(t@),
        None => None,
    }
}

pub struct LineDns {
    pub query_result: Vec<(u64, Option<String>)>,
}

/// The abstract state of the DNS line: the answers received and not yet
/// collected, oldest first.
pub struct DnsView {
    pub query_result: Seq<(u64, Option<Seq<char>>)>,
}

impl View for LineDns {
    type V = DnsView;

    open spec fn view(&self) -> DnsView {
        DnsView { query_result: self.query_result@.map_values(|p: (u64, Option<String>)| (p.0, opt_text(p.1))) }
    }
}

impl LineDns {
    pub fn new() -> (r: LineDns)
        ensures
            r@ == (DnsView { query_result: Seq::empty() }),
    {
        let r = LineDns { query_result: Vec::new() };
        assert(r@.query_result =~= Seq::empty());
        r
    }

    /// Hands out the answers collected so far and forgets them.
    pub fn move_out_dns_result(&mut self) -> (r: Vec<(u64, Option<String>)>)
        ensures
            r@.map_values(|p: (u64, Option<String>)| (p.0, opt_text(p.1))) == old(self)@.query_result,
            final(self)@.query_result.len() == 0,
    {
        let mut ret: Vec<(u64, Option<String>)> = Vec::new();
        std::mem::swap(&mut ret, &mut self.query_result);
        ret
    }

    pub fn clear_dns_result(&mut self)
        ensures
            final(self)@.query_result.len() == 0,
    {
        self.query_result.clear();
    }

    /// The query packet to send for client line `id` and its `host`, or
    /// `None` when the host name cannot be encoded.
    pub fn new_dns_query(&self, id: u64, host: String) -> (r: Option<Vec<u8>>)
        requires
            id <= u16::MAX,
        ensures
            opt_bytes(r) == dns_query_packet(id as u16, host@),
    {
        match build(id as u16, host.as_str()) {
            Some(packet) => self.socket_send(packet.as_slice()),
            None => None,
        }
    }

    fn decode(&self, buf: &[u8]) -> (r: (u64, Option<String>))
        ensures
            (r.0, opt_text(r.1)) == dns_decode(buf@),
    {
        match parse_packet(buf) {
            Some(packet) => {
                let id = packet.id as u64;
                if packet.rcode == 0 {
                    let ip = get_ip(&packet.answers);
                    (id, ip)
                } else {
                    (id, None)
                }
            },
            None => (0, None),
        }
    }
}

/// The first A record's address, in dotted-quad notation.
fn get_ip(data: &Vec<Option<u32>>) -> (r: Option<String>)
    ensures
        opt_text(r) == (match first_a(data@) {
            Some(a) => Some(ipv4_text(a)),
            None => None,
        }),
{
    let n = data.len();
    assert(data@.skip(0) =~= data@);
    for i in 0..n
        invariant
            n == data@.len(),
            first_a(data@) == first_a(data@.skip(i as int)),
    {
        assert(data@.skip(i as int).drop_first() =~= data@.skip(i + 1));
        match data[i] {
            Some(a) => {
                return Some(ipv4_string(a));
            },
            None => {},
        }
    }
    assert(data@.skip(n as int).len() == 0);
    None
}

impl LineStatus for LineDns {
    /// The DNS line keeps no status.
    open spec fn status_of(v: DnsView) -> Status {
        Status::Raw
    }

    open spec fn with_status(v: DnsView, st: Status) -> DnsView {
        v
    }

    proof fn lemma_with_own_status(v: DnsView) {
    }

    fn status(&self) -> (r: Status) {
        Status::Raw
    }

    fn set_status(&mut self, new: Status) {
    }
}

impl LinePair for LineDns {
    /// The DNS line has no pair.
    open spec fn pair_id_of(v: DnsView) -> u64 {
        0
    }

    open spec fn with_pair_id(v: DnsView, id: u64) -> DnsView {
        v
    }

    open spec fn pair_closed(v: DnsView) -> DnsView {
        v
    }

    proof fn lemma_status_keeps_pair(v: DnsView, st: Status) {
    }

    fn pair_id(&self) -> (r: u64) {
        0
    }

    fn set_pair_id(&mut self, id: u64) {
    }

    fn on_pair_close(&mut self) {
        self.set_pair_id(0);
    }
}

impl LineNetWork for LineDns {
    open spec fn network_data_ok(v: DnsView, buf: Seq<u8>) -> bool {
        true
    }

    /// Each datagram is a reply; what it says is queued.
    open spec fn network_data(v: DnsView, buf: Seq<u8>, now: i64) -> (DnsView, Seq<u8>, (nat, Option<(Seq<u8>, bool)>)) {
        (DnsView { query_result: v.query_result.push(dns_decode(buf)) }, buf, (0, None))
    }

    open spec fn peer_ip_of(v: DnsView) -> Seq<char> {
        Seq::empty()
    }

    fn on_network_data(&mut self, buf: &mut [u8], now: i64) -> (r: NetworkOutcome) {
        let ret = self.decode(buf);
        self.query_result.push(ret);
        assert(self@.query_result =~= old(self)@.query_result.push(dns_decode(buf@)));
        NetworkOutcome::forward_only(0)
    }

    fn forward_len(&self, buf: &[u8], now: i64) -> (r: usize) {
        0
    }

    fn network_data_acceptable(&self, buf: &[u8]) -> (r: bool) {
        true
    }

    /// The DNS server's address is not kept by the line.
    fn peer_ip(&self) -> (r: String) {
        String::new()
    }
}

impl LineEvent for LineDns {

}

} // verus!
