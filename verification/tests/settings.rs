use gateway::config::{
    device, dns_server, load_config, tcp_2_vps_line_init_num, tcp_port, udp_port, vps_ip, vps_tcp_port,
    vps_udp_port, ConfigFault,
};
use gateway::log::{err, im};

const SAMPLE: &str = "; gateway settings\n\
device = eth0\n\
dns_server = 8.8.8.8:53\n\
vps_ip = 1.2.3.4\n\
tcp_port = 1080\n\
udp_port = 1081\n\
vps_tcp_port = 9000\n\
vps_udp_port = 0\n\
tcp_2_vps_line_init_num = 4\n";

#[test]
fn text_settings_are_read() {
    let cfg = load_config(SAMPLE).unwrap();
    assert_eq!(device(&cfg).unwrap(), "eth0");
    assert_eq!(dns_server(&cfg).unwrap(), "8.8.8.8:53");
    assert_eq!(vps_ip(&cfg).unwrap(), "1.2.3.4");
}

#[test]
fn numeric_settings_are_read() {
    let cfg = load_config(SAMPLE).unwrap();
    assert_eq!(tcp_port(&cfg).unwrap(), 1080);
    assert_eq!(udp_port(&cfg).unwrap(), 1081);
    assert_eq!(vps_tcp_port(&cfg).unwrap(), 9000);
    assert_eq!(vps_udp_port(&cfg).unwrap(), 0);
    assert_eq!(tcp_2_vps_line_init_num(&cfg).unwrap(), 4);
}

#[test]
fn last_entry_wins() {
    let cfg = load_config("device = eth0\ndevice = wlan0\n").unwrap();
    assert_eq!(device(&cfg).unwrap(), "wlan0");
}

#[test]
fn keys_are_not_case_sensitive_in_the_file() {
    let cfg = load_config("DEVICE = eth1\n").unwrap();
    assert_eq!(device(&cfg).unwrap(), "eth1");
}

#[test]
fn missing_text_setting() {
    let cfg = load_config("tcp_port = 1080\n").unwrap();
    assert_eq!(device(&cfg), Err(ConfigFault::NoItem));
    assert_eq!(vps_ip(&cfg), Err(ConfigFault::NoItem));
}

#[test]
fn missing_or_bad_number() {
    let cfg = load_config("tcp_port = abc\nudp_port = 70000\nvps_tcp_port = +22\ntcp_2_vps_line_init_num = 256\n").unwrap();
    assert_eq!(tcp_port(&cfg), Err(ConfigFault::NoNumber));
    assert_eq!(udp_port(&cfg), Err(ConfigFault::NoNumber));
    assert_eq!(vps_tcp_port(&cfg).unwrap(), 22);
    assert_eq!(vps_udp_port(&cfg), Err(ConfigFault::NoNumber));
    assert_eq!(tcp_2_vps_line_init_num(&cfg), Err(ConfigFault::NoNumber));
}

#[test]
fn invalid_configuration_text() {
    assert_eq!(load_config("device eth0\n").err(), Some(ConfigFault::InvalidConfig));
    assert_eq!(load_config("a = b = c\n").err(), Some(ConfigFault::InvalidConfig));
}

#[test]
fn general_log_line() {
    let w = im("eth0", 12, "hello");
    assert_eq!(w.path, "eth0/default.log");
    assert_eq!(w.text, "[12]hello\n");
}

#[test]
fn error_log_line() {
    let w = err("dev", 0, "oops");
    assert_eq!(w.path, "dev/err.log");
    assert_eq!(w.text, "[0]oops\n");
    let n = err("dev", -3, "x");
    assert_eq!(n.text, "[-3]x\n");
}
