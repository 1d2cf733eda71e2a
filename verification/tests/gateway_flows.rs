use gateway::config::DNS_ID;
use gateway::gate::event::EpollIn;
use gateway::gate::john::JohnLine;
use gateway::gate::Gate;
use gateway::global::{be_bytes, reverse, u8r};
use gateway::line::any_line::AnyLine;
use gateway::line::mainland::network::Step as MainLandStep;
use gateway::line::pair::LinePair;
use gateway::line::pc::network::Step as PcStep;
use gateway::line::status::{LineStatus, Status};
use simple_dns::rdata::{RData, A};
use simple_dns::{Name, Packet, ResourceRecord, CLASS, RCODE};

fn obfuscated(data: &[u8]) -> Vec<u8> {
    let mut v = data.to_vec();
    reverse(&mut v);
    v
}

/// The connect request as a SOCKS5 client line passes it on.
fn tunnel_request(host: &str, port: u16) -> Vec<u8> {
    let mut v = vec![0u8, 1, 0, 3, host.len() as u8];
    for b in host.as_bytes() {
        v.push(u8r(*b));
    }
    for b in port.to_be_bytes() {
        v.push(u8r(b));
    }
    v
}

fn dns_reply(id: u16, address: Option<u32>) -> Vec<u8> {
    let mut p = Packet::new_reply(id);
    if let Some(a) = address {
        p.answers.push(ResourceRecord::new(
            Name::new("example.com").unwrap(),
            CLASS::IN,
            60,
            RData::A(A { address: a }),
        ));
    }
    p.build_bytes_vec().unwrap()
}

fn mainland(g: &Gate, id: u64) -> (MainLandStep, u64, String, u16, Vec<u8>) {
    match g.line(id) {
        AnyLine::MainLand(m) => (m.step, m.pair_id, m.peer_ip.clone(), m.peer_port, m.client_hello_data.clone()),
        _ => panic!("not a client line"),
    }
}

fn status_of(g: &Gate, id: u64) -> Status {
    g.line(id).status()
}

#[test]
fn a_new_gateway_is_empty() {
    let g = Gate::new();
    assert_eq!(g.len(), 0);
    assert_eq!(g.frame(), 0);
    assert_eq!(g.last_id(), 10);
    assert!(!g.has(DNS_ID));
}

#[test]
fn frames_count_up() {
    let mut g = Gate::new();
    g.next_frame();
    g.next_frame();
    assert_eq!(g.frame(), 2);
}

#[test]
fn epoll_ids() {
    let g = Gate::new();
    assert_eq!(g.epoll_in(1), EpollIn::AcceptJohn);
    assert_eq!(g.epoll_in(11), EpollIn::Read);
    assert!(g.epoll_err(1));
    assert!(!g.epoll_err(3));
}

#[test]
fn direct_client_is_greeted() {
    let mut g = Gate::new();
    match g.on_john_connect(0, 0) {
        JohnLine::MainLand(id, greeting) => {
            assert_eq!(id, 11);
            assert_eq!(greeting, Some(11u64.to_be_bytes().to_vec()));
        },
        JohnLine::Pc(_) => panic!("expected a direct client"),
    }
    assert!(g.has(11));
    assert_eq!(g.last_id(), 11);
}

#[test]
fn socks5_client_without_ready_tunnel_is_turned_away() {
    let mut g = Gate::new();
    assert_eq!(g.create_tcp_2_vps_lines(2), vec![11u64, 12]);
    match g.on_john_connect(2, 100) {
        JohnLine::Pc(p) => assert_eq!(p, None),
        JohnLine::MainLand(_, _) => panic!("expected a SOCKS5 client"),
    }
    assert_eq!(g.len(), 2);
    assert_eq!(g.find_idle_hk_chick(100), 0);
}

#[test]
fn socks5_client_through_a_tunnel() {
    let mut g = Gate::new();
    g.create_tcp_2_vps_lines(2);
    let mut answer = be_bytes(500);
    let ev = g.on_read_able_event(12, &mut answer, false, 100);
    assert!(ev.forward.is_none());
    assert_eq!(status_of(&g, 12), Status::Establish);
    assert_eq!(g.find_idle_hk_chick(110), 12);

    let pc = g.find_chick_for_pc(110).unwrap();
    assert_eq!(pc, 13);
    assert_eq!(g.line(12).pair_id(), 13);
    assert_eq!(g.line(13).pair_id(), 12);
    assert_eq!(g.find_idle_hk_chick(110), 0);

    let mut hello = vec![5u8, 1, 0];
    assert!(g.read_ok(13, &hello, false, 110));
    let ev = g.on_read_able_event(13, &mut hello, false, 110);
    assert_eq!(ev.reply.unwrap().data, vec![5u8, 0]);
    assert!(ev.forward.is_none());

    let mut bad = vec![5u8, 1, 0, 1, 127, 0, 0, 1, 0, 80];
    assert!(!g.read_ok(13, &bad, false, 110));
    assert!(g.read_ok(13, &bad, true, 110));
    let ev = g.on_read_able_event(13, &mut bad, true, 110);
    assert!(ev.reply.is_none());

    let mut req = vec![5u8, 1, 0, 3, 3, b'a', b'.', b'b', 0, 80];
    let ev = g.on_read_able_event(13, &mut req, false, 110);
    assert_eq!(ev.reply.unwrap().data, vec![5u8, 0, 0, 1, 0, 0, 0, 0, 0, 0]);
    let fwd = ev.forward.unwrap();
    assert_eq!(fwd.target, 12);
    assert_eq!(fwd.data, tunnel_request("a.b", 80));
    match g.line(13) {
        AnyLine::Pc(p) => assert_eq!(p.step, PcStep::SniDone),
        _ => panic!("not a SOCKS5 client line"),
    }

    let mut back = b"response from far away".to_vec();
    let ev = g.on_read_able_event(12, &mut back, false, 111);
    let fwd = ev.forward.unwrap();
    assert_eq!(fwd.target, 13);
    assert_eq!(fwd.data, b"response from far away".to_vec());
}

#[test]
fn tunnel_keep_alive() {
    let mut g = Gate::new();
    g.create_tcp_2_vps_lines(1);
    assert!(g.tcp_keep_alive(100).is_empty());
    g.on_read_able_event(11, &mut be_bytes(1), false, 100);
    let beats = g.tcp_keep_alive(200);
    assert_eq!(beats.len(), 1);
    assert_eq!(beats[0].target, 11);
    assert_eq!(beats[0].data, obfuscated(&11u64.to_be_bytes()));
    assert!(g.tcp_keep_alive(200).is_empty());
    assert!(g.tcp_keep_alive(202).is_empty());
    assert_eq!(g.tcp_keep_alive(203).len(), 1);
}

#[test]
fn direct_client_full_path() {
    let mut g = Gate::new();
    g.new_dns_line();
    let (id, _) = g.new_mainland_line();
    assert_eq!(id, 11);

    let mut hb = obfuscated(&7u64.to_be_bytes());
    let ev = g.on_read_able_event(id, &mut hb, false, 0);
    assert_eq!(ev.reply.unwrap().data, 11u64.to_be_bytes().to_vec());
    assert_eq!(status_of(&g, id), Status::Establish);

    let mut req = tunnel_request("example.com", 443);
    assert!(g.read_ok(id, &req, false, 0));
    g.on_read_able_event(id, &mut req, false, 0);
    let (step, _, host, port, _) = mainland(&g, id);
    assert_eq!(step, MainLandStep::WaitingDnsCollect);
    assert_eq!(host, "example.com");
    assert_eq!(port, 443);

    let mut first = obfuscated(b"client hello");
    g.on_read_able_event(id, &mut first, false, 0);
    assert_eq!(mainland(&g, id).4, b"client hello".to_vec());

    assert!(g.dns_queries_ok());
    let queries = g.gather_dns_query();
    assert_eq!(queries.len(), 1);
    assert_eq!(queries[0].id, 11);
    let packet = queries[0].packet.clone().unwrap();
    let parsed = Packet::parse(&packet).unwrap();
    assert_eq!(parsed.id(), 11);
    assert_eq!(parsed.questions[0].qname.to_string(), "example.com");
    assert_eq!(mainland(&g, id).0, MainLandStep::WaitingDnsResult);
    assert!(g.gather_dns_query().is_empty());

    let mut answer = dns_reply(11, Some(0x5db8d822));
    let ev = g.on_read_able_event(DNS_ID, &mut answer, false, 0);
    assert!(ev.forward.is_none());
    assert!(g.dns_results_ok());
    let connects = g.check_dns_result();
    assert_eq!(connects.len(), 1);
    assert_eq!(connects[0].world_id, 12);
    assert_eq!(connects[0].address, "93.184.216.34:443");
    assert_eq!(mainland(&g, id).0, MainLandStep::DnsQuerySuccess);
    assert_eq!(mainland(&g, id).1, 12);
    match g.line(12) {
        AnyLine::World(w) => {
            assert_eq!(w.pair_id, 11);
            assert_eq!(w.peer_address, "93.184.216.34:443");
        },
        _ => panic!("not an outgoing line"),
    }
    assert!(g.check_dns_result().is_empty());

    g.on_write_able_event(12);
    assert_eq!(status_of(&g, 12), Status::WriteOpen);
    assert!(g.pairs_of_opened_present());
    let d = g.deregister();
    assert_eq!(d.hang_up, vec![12u64]);
    assert_eq!(d.change, vec![12u64]);
    assert_eq!(status_of(&g, 12), Status::Register);
    assert_eq!(mainland(&g, id).0, MainLandStep::WorldConnectSuccess);

    let sends = g.gather_client_hello();
    assert_eq!(sends.len(), 1);
    assert_eq!(sends[0].target, 12);
    assert_eq!(sends[0].data, b"client hello".to_vec());
    assert!(g.gather_client_hello().is_empty());
    assert_eq!(mainland(&g, id).0, MainLandStep::ClientHelloDone);

    let mut up = b"more".to_vec();
    let ev = g.on_read_able_event(id, &mut up, false, 0);
    let f = ev.forward.unwrap();
    assert_eq!(f.target, 12);
    assert_eq!(f.data, b"more".to_vec());

    let mut down = b"reply".to_vec();
    let ev = g.on_read_able_event(12, &mut down, false, 0);
    let f = ev.forward.unwrap();
    assert_eq!(f.target, 11);
    assert_eq!(f.data, b"reply".to_vec());
}

#[test]
fn failed_lookup_leaves_the_client_waiting() {
    let mut g = Gate::new();
    g.new_dns_line();
    let (id, _) = g.new_mainland_line();
    let mut req = tunnel_request("nowhere.example", 80);
    g.on_read_able_event(id, &mut req, false, 0);
    g.gather_dns_query();
    let mut answer = dns_reply(11, None);
    g.on_read_able_event(DNS_ID, &mut answer, false, 0);
    assert!(g.check_dns_result().is_empty());
    assert_eq!(mainland(&g, id).0, MainLandStep::WaitingDnsResult);
    assert_eq!(mainland(&g, id).1, 0);
    assert_eq!(g.len(), 2);
}

#[test]
fn lookups_need_the_dns_line() {
    let mut g = Gate::new();
    let (id, _) = g.new_mainland_line();
    let mut req = tunnel_request("a.io", 80);
    g.on_read_able_event(id, &mut req, false, 0);
    assert!(!g.dns_queries_ok());
    g.new_dns_line();
    assert!(g.dns_queries_ok());
}

#[test]
fn dns_answer_for_an_unknown_line_is_refused() {
    let mut g = Gate::new();
    g.new_dns_line();
    let mut answer = dns_reply(99, Some(1));
    g.on_read_able_event(DNS_ID, &mut answer, false, 0);
    assert!(!g.dns_results_ok());
}

#[test]
fn closing_a_pair_then_clearing() {
    let mut g = Gate::new();
    g.new_dns_line();
    let (id, _) = g.new_mainland_line();
    let mut req = tunnel_request("example.com", 443);
    g.on_read_able_event(id, &mut req, false, 0);
    g.gather_dns_query();
    let mut answer = dns_reply(11, Some(0x01020304));
    g.on_read_able_event(DNS_ID, &mut answer, false, 0);
    g.check_dns_result();

    g.on_hang_up_event(12);
    assert_eq!(status_of(&g, 12), Status::ReadWriteBothClose);
    let d = g.deregister();
    assert_eq!(d.hang_up, vec![12u64]);
    assert!(d.change.is_empty());
    assert_eq!(status_of(&g, 12), Status::Close);

    assert!(g.pairs_of_closing_present());
    g.decouple();
    assert_eq!(status_of(&g, 12), Status::Dead);
    assert_eq!(status_of(&g, id), Status::CoolDown);
    assert_eq!(g.line(id).pair_id(), 0);

    let report = g.clear_dead_line(0);
    assert_eq!(report.dead, vec![12u64]);
    assert!(!g.has(12));
    assert!(g.has(id));
    assert!(g.has(DNS_ID));
    assert_eq!(report.hk, 0);
    assert!(!report.should_log);
}

#[test]
fn half_closes_and_reads() {
    let mut g = Gate::new();
    let (id, _) = g.new_mainland_line();
    g.on_rd_hang_up_event(id);
    assert_eq!(status_of(&g, id), Status::WriteClose);
    assert!(g.readable(id));
    let mut nothing: Vec<u8> = Vec::new();
    g.on_read_able_event(id, &mut nothing, false, 0);
    assert_eq!(status_of(&g, id), Status::ReadWriteBothClose);
    assert!(!g.readable(id));
}

#[test]
fn tunnel_census() {
    let mut g = Gate::new();
    g.create_tcp_2_vps_lines(3);
    g.on_read_able_event(11, &mut be_bytes(1), false, 100);
    g.on_read_able_event(12, &mut be_bytes(1), false, 100);
    g.find_chick_for_pc(100);
    let r = g.clear_dead_line(110);
    assert!(r.dead.is_empty());
    assert_eq!(r.hk, 3);
    assert_eq!(r.ready, 1);
    assert_eq!(r.working, 1);
    assert_eq!(r.not_establish, 0);
    assert_eq!(r.timeout, 1);
    assert_eq!(g.len(), 4);
}

/// A client line 11 with an outgoing line 12 that has connected.
fn connected_client() -> Gate {
    let mut g = Gate::new();
    g.new_dns_line();
    g.new_mainland_line();
    let mut req = tunnel_request("example.com", 443);
    g.on_read_able_event(11, &mut req, false, 0);
    let mut first = obfuscated(b"hi");
    g.on_read_able_event(11, &mut first, false, 0);
    g.gather_dns_query();
    let mut answer = dns_reply(11, Some(0x01020304));
    g.on_read_able_event(DNS_ID, &mut answer, false, 0);
    g.check_dns_result();
    g.on_write_able_event(12);
    g.deregister();
    g
}

#[test]
fn missing_outgoing_line_is_reported() {
    let mut g = connected_client();
    assert!(g.hello_targets_missing().is_empty());
    g.on_hang_up_event(12);
    g.deregister();
    g.decouple();
    g.clear_dead_line(0);
    assert!(!g.has(12));
    assert_eq!(mainland(&g, 11).0, MainLandStep::WorldConnectSuccess);
    assert_eq!(g.hello_targets_missing(), vec![0u64]);
    assert!(g.gather_client_hello().is_empty());
    assert!(g.hello_targets_missing().is_empty());
}

#[test]
fn pair_is_needed_only_to_forward() {
    let mut g = connected_client();
    g.on_hang_up_event(11);
    g.deregister();
    g.decouple();
    g.clear_dead_line(0);
    assert!(!g.has(11));
    assert_eq!(g.line(12).pair_id(), 11);
    assert!(!g.read_ok(12, b"data", false, 0));
    assert!(g.read_ok(12, b"data", true, 0));
    let mut nothing: Vec<u8> = Vec::new();
    assert!(g.read_ok(12, &nothing, false, 0));
    let ev = g.on_read_able_event(12, &mut nothing, false, 0);
    assert!(ev.forward.is_none());
    assert_eq!(status_of(&g, 12), Status::ReadClose);
}

#[test]
fn kept_client_bytes_are_not_forwarded() {
    let mut g = Gate::new();
    let (id, _) = g.new_mainland_line();
    let mut req = tunnel_request("a.io", 80);
    g.on_read_able_event(id, &mut req, false, 0);
    assert!(g.read_ok(id, &obfuscated(b"abc"), false, 0));
    let ev = g.on_read_able_event(id, &mut obfuscated(b"abc"), false, 0);
    assert!(ev.forward.is_none());
    assert_eq!(mainland(&g, id).4, b"abc".to_vec());
}
