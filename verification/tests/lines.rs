use gateway::global::{be_bytes, reverse};
use gateway::line::event::LineEvent;
use gateway::line::mainland::network::Step as MainLandStep;
use gateway::line::mainland::LineMainLand;
use gateway::line::network::LineNetWork;
use gateway::line::pair::LinePair;
use gateway::line::pc::network::{s5_request_acceptable, Step as PcStep};
use gateway::line::pc::LinePc;
use gateway::line::status::{LineStatus, Status};
use gateway::line::tcp2vps::LineTcp2Vps;
use gateway::line::world::LineWorld;

/// A SOCKS5 connect request for `host:port`.
fn s5_request(host: &str, port: u16) -> Vec<u8> {
    let mut v = vec![5u8, 1, 0, 3, host.len() as u8];
    v.extend_from_slice(host.as_bytes());
    v.extend_from_slice(&port.to_be_bytes());
    v
}

fn obfuscated(data: &[u8]) -> Vec<u8> {
    let mut v = data.to_vec();
    reverse(&mut v);
    v
}

#[test]
fn tunnel_heart_beat_is_rate_limited() {
    let mut h = LineTcp2Vps::new(11);
    assert_eq!(h.send_heart_beat(1000), None);
    h.on_recv_server_heart_beat(&be_bytes(77), 100);
    assert_eq!(h.status(), Status::Establish);
    assert_eq!(h.last_recv_heart_beat, 100);
    assert_eq!(h.send_heart_beat(101), None);
    let hb = h.send_heart_beat(104).unwrap();
    assert_eq!(hb, obfuscated(&11u64.to_be_bytes()));
    assert_eq!(h.last_send_heart_beat, 104);
    assert_eq!(h.send_heart_beat(104), None);
    assert_eq!(h.send_heart_beat(106), None);
    assert!(h.send_heart_beat(107).is_some());
}

#[test]
fn busy_tunnel_sends_no_heart_beat() {
    let mut h = LineTcp2Vps::new(12);
    h.on_recv_server_heart_beat(&be_bytes(1), 0);
    h.set_pair_id(30);
    assert_eq!(h.send_heart_beat(500), None);
}

#[test]
fn tunnel_ready_and_timeout() {
    let mut h = LineTcp2Vps::new(13);
    assert!(!h.is_ready(0));
    h.on_recv_server_heart_beat(&be_bytes(1), 50);
    assert!(h.is_ready(60));
    assert!(h.is_ready(80));
    assert!(!h.tcp_timeout(80));
    assert!(h.tcp_timeout(81));
    assert!(!h.is_ready(81));
    h.set_pair_id(5);
    assert!(!h.is_ready(60));
}

#[test]
fn tunnel_ignores_short_or_long_heart_beats() {
    let mut h = LineTcp2Vps::new(14);
    h.on_recv_server_heart_beat(&[1, 2, 3], 50);
    assert_eq!(h.status(), Status::Raw);
    assert_eq!(h.last_recv_heart_beat, 0);
}

#[test]
fn tunnel_forwards_traffic_only_with_a_pair() {
    let mut h = LineTcp2Vps::new(15);
    let mut data = vec![9u8; 20];
    assert_eq!(h.on_network_data(&mut data, 0).forward, 0);
    h.set_pair_id(40);
    assert_eq!(h.on_network_data(&mut data, 0).forward, 20);
    h.on_pair_close();
    assert_eq!(h.pair_id(), 0);
    assert_eq!(h.status(), Status::CoolDown);
}

#[test]
fn client_line_answers_heart_beats() {
    let mut m = LineMainLand::new(21);
    let mut hb = obfuscated(&99u64.to_be_bytes());
    let out = m.on_network_data(&mut hb, 0);
    assert_eq!(out.forward, 0);
    let reply = out.reply.unwrap();
    assert_eq!(reply.data, 21u64.to_be_bytes().to_vec());
    assert!(!reply.strict);
    assert_eq!(m.status(), Status::Establish);
    assert_eq!(m.step, MainLandStep::Raw);
    let mut hb2 = obfuscated(&99u64.to_be_bytes());
    let again = m.on_network_data(&mut hb2, 0);
    assert_eq!(again.reply.unwrap().data, 21u64.to_be_bytes().to_vec());
}

#[test]
fn client_line_cooling_down_goes_back_to_raw() {
    let mut m = LineMainLand::new(22);
    m.set_status(Status::CoolDown);
    assert_eq!(m.recv_heart_beat(5), None);
    assert_eq!(m.status(), Status::Raw);
}

#[test]
fn client_line_with_pair_ignores_heart_beats() {
    let mut m = LineMainLand::new(23);
    m.set_pair_id(50);
    assert_eq!(m.recv_heart_beat(5), None);
    assert_eq!(m.status(), Status::Raw);
}

#[test]
fn pc_side_socks5_exchange() {
    let mut pc = LinePc::new(31, 11);
    let mut hello = vec![5u8, 1, 0];
    let out = pc.on_network_data(&mut hello, 0);
    assert_eq!(out.forward, 0);
    let r = out.reply.unwrap();
    assert_eq!(r.data, vec![5u8, 0]);
    assert!(r.strict);
    assert_eq!(pc.step, PcStep::HelloDone);

    let mut req = s5_request("example.com", 443);
    let plain = req.clone();
    let out = pc.on_network_data(&mut req, 0);
    assert_eq!(out.forward, plain.len());
    assert_eq!(out.reply.unwrap().data, vec![5u8, 0, 0, 1, 0, 0, 0, 0, 0, 0]);
    assert_eq!(pc.step, PcStep::SniDone);
    assert_eq!(req[0], 0);
    assert_eq!(&req[1..5], &plain[1..5]);
    assert_eq!(&req[5..], &obfuscated(&plain[5..])[..]);

    let mut first = b"client hello".to_vec();
    let out = pc.on_network_data(&mut first, 0);
    assert_eq!(out.forward, 12);
    assert_eq!(first, obfuscated(b"client hello"));
    assert_eq!(pc.step, PcStep::ClientHelloDone);

    let mut more = b"plain".to_vec();
    let out = pc.on_network_data(&mut more, 0);
    assert_eq!(out.forward, 5);
    assert_eq!(more, b"plain".to_vec());
}

#[test]
fn socks5_request_shape() {
    assert!(s5_request_acceptable(&s5_request("a.b", 80)));
    assert!(!s5_request_acceptable(&[5u8, 1, 0, 1, 1, 2, 3, 4, 0, 80]));
    assert!(!s5_request_acceptable(&[4u8, 1, 0, 3, 1, 97, 0, 80]));
    assert!(!s5_request_acceptable(&[5u8, 1, 0, 3, 9, 97, 0]));
}

#[test]
fn request_crosses_the_tunnel() {
    let mut pc = LinePc::new(31, 11);
    pc.on_network_data(&mut vec![5u8, 1, 0], 0);
    let mut req = s5_request("example.com", 443);
    pc.on_network_data(&mut req, 0);

    let mut m = LineMainLand::new(41);
    let out = m.on_network_data(&mut req, 0);
    assert_eq!(out.forward, 0);
    assert!(out.reply.is_none());
    assert_eq!(m.peer_ip, "example.com");
    assert_eq!(m.peer_port, 443);
    assert_eq!(m.step, MainLandStep::WaitingDnsCollect);
    assert!(m.client_hello_data.is_empty());

    let mut first = b"client hello".to_vec();
    pc.on_network_data(&mut first, 0);
    m.on_network_data(&mut first, 0);
    assert_eq!(m.client_hello_data, b"client hello".to_vec());
    assert_eq!(m.step, MainLandStep::WaitingDnsCollect);
}

#[test]
fn request_with_trailing_data_keeps_it() {
    let mut req = s5_request("h.io", 8080);
    req[0] = 0;
    let mut tail = obfuscated(b"xyz");
    for b in req[5..].iter_mut() {
        *b = gateway::global::u8r(*b);
    }
    req.append(&mut tail);
    let mut m = LineMainLand::new(42);
    m.on_network_data(&mut req, 0);
    assert_eq!(m.peer_ip, "h.io");
    assert_eq!(m.peer_port, 8080);
    assert_eq!(m.client_hello_data, b"xyz".to_vec());
}

#[test]
fn client_line_after_connect() {
    let mut m = LineMainLand::new(43);
    m.step = MainLandStep::WaitingDnsResult;
    m.on_network_data(&mut obfuscated(b"abc"), 0);
    m.dns_query_success(60);
    assert_eq!(m.pair_id(), 60);
    assert_eq!(m.step, MainLandStep::DnsQuerySuccess);
    m.world_connect_success();
    assert_eq!(m.step, MainLandStep::WorldConnectSuccess);
    assert_eq!(m.move_out_client_hello_data(), Some(b"abc".to_vec()));
    assert_eq!(m.step, MainLandStep::ClientHelloDone);
    assert_eq!(m.move_out_client_hello_data(), None);
}

#[test]
fn client_line_first_message_after_connect_is_decoded() {
    let mut m = LineMainLand::new(44);
    m.pair_id = 61;
    m.step = MainLandStep::WorldConnectSuccess;
    let mut data = obfuscated(b"hello world");
    let out = m.on_network_data(&mut data, 0);
    assert_eq!(out.forward, 11);
    assert_eq!(data, b"hello world".to_vec());
    assert_eq!(m.step, MainLandStep::ClientHelloDone);
    let mut plain = b"more bytes".to_vec();
    let out = m.on_network_data(&mut plain, 0);
    assert_eq!(out.forward, 10);
    assert_eq!(plain, b"more bytes".to_vec());
}

#[test]
fn status_changes_on_closes() {
    let mut w = LineWorld::new(50, 44);
    w.on_rd_hang_up();
    assert_eq!(w.status(), Status::WriteClose);
    w.on_read_close();
    assert_eq!(w.status(), Status::ReadWriteBothClose);

    let mut v = LineWorld::new(51, 44);
    v.on_read_close();
    assert_eq!(v.status(), Status::ReadClose);
    assert!(!v.readable());
    v.on_rd_hang_up();
    assert_eq!(v.status(), Status::ReadWriteBothClose);

    let mut u = LineWorld::new(52, 44);
    u.on_write_able();
    assert_eq!(u.status(), Status::WriteOpen);
    u.on_hang_up();
    assert_eq!(u.status(), Status::ReadWriteBothClose);
    u.turn_dead();
    assert_eq!(u.status(), Status::Dead);
}

#[test]
fn socket_send_respects_status() {
    let mut w = LineWorld::new(53, 44);
    assert_eq!(w.socket_send(&[1, 2, 3]), Some(vec![1u8, 2, 3]));
    w.set_status(Status::WriteClose);
    assert_eq!(w.socket_send(&[1, 2, 3]), None);
    w.set_status(Status::Close);
    assert_eq!(w.socket_send(&[1]), None);
    w.set_status(Status::Register);
    assert_eq!(w.socket_send(&[1]), Some(vec![1u8]));
}

#[test]
fn read_end_of_stream_and_failures() {
    let mut w = LineWorld::new(54, 44);
    let mut empty: Vec<u8> = Vec::new();
    let out = w.on_read_able(&mut empty, false, 0);
    assert_eq!(out.forward, 0);
    assert_eq!(w.status(), Status::ReadClose);
    let mut data = vec![1u8, 2];
    let out = w.on_read_able(&mut data, false, 0);
    assert_eq!(out.forward, 0);

    let mut x = LineWorld::new(55, 44);
    let out = x.on_read_able(&mut data, true, 0);
    assert_eq!(out.forward, 0);
    assert_eq!(x.status(), Status::Raw);
    let out = x.on_read_able(&mut data, false, 0);
    assert_eq!(out.forward, 2);
}

#[test]
fn request_is_decoded_on_the_other_side() {
    let mut pc = LinePc::new(31, 11);
    pc.on_network_data(&mut vec![5u8, 1, 0], 0);
    let mut req = s5_request("abc.de", 8443);
    pc.s5_sni(&mut req);
    let mut m = LineMainLand::new(41);
    assert_eq!(m.decode_host_name(&req), 6 + 7);
    assert_eq!(m.peer_ip, "abc.de");
    assert_eq!(m.peer_port, 8443);
}

#[test]
fn forward_length_without_receiving() {
    let mut m = LineMainLand::new(45);
    assert_eq!(m.forward_len(b"hello", 0), 0);
    m.step = MainLandStep::ClientHelloDone;
    assert_eq!(m.forward_len(b"hello", 0), 0);
    m.pair_id = 3;
    assert_eq!(m.forward_len(b"hello", 0), 5);
    assert_eq!(m.forward_len(&obfuscated(&7u64.to_be_bytes()), 0), 0);
    let pc = LinePc::new(46, 1);
    assert_eq!(pc.forward_len(b"xyz", 0), 0);
    let w = LineWorld::new(47, 1);
    assert_eq!(w.forward_len(b"xyz", 0), 3);
}
