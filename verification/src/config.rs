//! Constants of the protocol and the gateway's settings.
use vstd::prelude::*;
use simple_config_parser::{Config, ConfigError};

verus! {

/// Size of the buffer a readable socket is read into.
pub const BUFF_SIZE: usize = 65536;

/// Index of the address-type byte in a SOCKS5-style request.
pub const ATYP_INDEX: usize = 3;

/// Address type "host name" in a SOCKS5-style request.
pub const ATYP_HOST_NAME: u8 = 3;

/// Epoll ids of the listening TCP socket, the UDP socket and the DNS line.
pub const TCP_GATE_ID: u64 = 1;

pub const UDP_GATE_ID: u64 = 2;

pub const DNS_ID: u64 = 3;

/// Seconds without a heart beat after which a connection counts as dead.
pub const TCP_LIFE_TIME: i64 = 30;

/// The settings file's parsed form, from `simple_config_parser`.
#[verifier::external_type_specification]
#[verifier::external_body]
pub struct ExConfig(Config);

/// The error type of `simple_config_parser`.
#[verifier::external_type_specification]
#[verifier::external_body]
pub struct ExConfigError(ConfigError);

/// What a parsed configuration holds: its `(key, value)` entries in the
/// order in which they stood in the text.
pub uninterp spec fn config_entries(c: Config) -> Seq<(Seq<char>, Seq<char>)>;

/// The entries that `Config::text` reads out of `text`, or `None` where it
/// refuses the text as no valid configuration.
pub uninterp spec fn parsed_config(text: Seq<char>) -> Option<Seq<(Seq<char>, Seq<char>)>>;

/// The value of the last entry whose key is `key`.
pub open spec fn last_value(entries: Seq<(Seq<char>, Seq<char>)>, key: Seq<char>) -> Option<Seq<char>>
    decreases entries.len(),
{
    if entries.len() == 0 {
        None
    } else if entries.last().0 == key {
        Some(entries.last().1)
    } else {
        last_value(entries.drop_last(), key)
    }
}

/// Lower-case ASCII letters, digits and `_` only: a key that
/// `str::to_lowercase` leaves as it is.
pub open spec fn is_lower_key(key: Seq<char>) -> bool {
    forall|i: int| 0 <= i < key.len() ==> ('a' <= #[trigger] key[i] <= 'z') || ('0' <= key[i] <= '9') || key[i] == '_'
}

pub open spec fn is_digit(c: char) -> bool {
    '0' <= c <= '9'
}

/// The number written by the decimal digits `s`.
pub open spec fn digits_value(s: Seq<char>) -> nat
    decreases s.len(),
{
    if s.len() == 0 {
        0
    } else {
        digits_value(s.drop_last()) * 10 + ((s.last() as int) - ('0' as int)) as nat
    }
}

/// What `str::parse` gives for an unsigned integer type whose largest
/// value is `max`: an optional `+`, then one or more decimal digits whose
/// value does not exceed `max`; anything else is refused.
pub open spec fn parse_unsigned(s: Seq<char>, max: nat) -> Option<nat> {
    let d = if s.len() > 0 && s[0] == '+' {
        s.drop_first()
    } else {
        s
    };
    if d.len() > 0 && (forall|i: int| 0 <= i < d.len() ==> is_digit(#[trigger] d[i])) && digits_value(d) <= max {
        Some(digits_value(d))
    } else {
        None
    }
}

/// `Config::new().text(text)`: the entries read out of `text`, under the
/// name `parsed_config`; an error exactly where that name gives `None`.
#[verifier::external_body]
fn config_from_text(text: &str) -> (r: Result<Config, ConfigError>)
    ensures
        r is Ok <==> parsed_config(text@) is Some,
        r matches Ok(c) ==> config_entries(c) == parsed_config(text@)->0,
{
    Config::new().text(text)
}

/// `Config::get_str`: the value of the last entry with key `key`, an error
/// where there is none.  The method lowers the key first; `key` is asked to
/// be in lower case already, so that the lowering leaves it as it is.
#[verifier::external_body]
fn config_get_str(c: &Config, key: &str) -> (r: Result<String, ConfigError>)
    requires
        is_lower_key(key@),
    ensures
        match last_value(config_entries(*c), key@) {
            Some(v) => r matches Ok(s) && s@ == v,
            None => r is Err,
        },
{
    c.get_str(key)
}

/// `Config::get::<u16>`: the value of the last entry with key `key`, read
/// by `u16::from_str`; an error where there is no such entry or its value
/// is no such number.  `key` is in lower case, as for `config_get_str`.
#[verifier::external_body]
fn config_get_u16(c: &Config, key: &str) -> (r: Result<u16, ConfigError>)
    requires
        is_lower_key(key@),
    ensures
        match last_value(config_entries(*c), key@) {
            Some(v) => match parse_unsigned(v, u16::MAX as nat) {
                Some(n) => r matches Ok(x) && x == n,
                None => r is Err,
            },
            None => r is Err,
        },
{
    c.get::<u16>(key)
}

/// `Config::get::<u8>`, as `config_get_u16` for `u8`.
#[verifier::external_body]
fn config_get_u8(c: &Config, key: &str) -> (r: Result<u8, ConfigError>)
    requires
        is_lower_key(key@),
    ensures
        match last_value(config_entries(*c), key@) {
            Some(v) => match parse_unsigned(v, u8::MAX as nat) {
                Some(n) => r matches Ok(x) && x == n,
                None => r is Err,
            },
            None => r is Err,
        },
{
    c.get::<u8>(key)
}

/// Why a setting could not be read.
#[derive(PartialEq, Eq, Structural, Clone, Copy, Debug)]
pub enum ConfigFault {
    /// The settings text is no valid configuration.
    InvalidConfig,
    /// No entry has the setting's key.
    NoItem,
    /// No entry has the setting's key, or the last one's value is not a
    /// number of the setting's type.
    NoNumber,
}

/// The result of reading text setting `key`.
pub open spec fn str_setting(c: Config, key: Seq<char>) -> Result<Seq<char>, ConfigFault> {
    match last_value(config_entries(c), key) {
        Some(v) => Ok(v),
        None => Err(ConfigFault::NoItem),
    }
}

/// The result of reading numeric setting `key` of a type whose largest
/// value is `max`.
pub open spec fn num_setting(c: Config, key: Seq<char>, max: nat) -> Result<nat, ConfigFault> {
    match last_value(config_entries(c), key) {
        Some(v) => match parse_unsigned(v, max) {
            Some(n) => Ok(n),
            None => Err(ConfigFault::NoNumber),
        },
        None => Err(ConfigFault::NoNumber),
    }
}

pub open spec fn string_result(r: Result<String, ConfigFault>) -> Result<Seq<char>, ConfigFault> {
    match r {
        Ok(s) => Ok(s@),
        Err(e) => Err(e),
    }
}

pub open spec fn u16_result(r: Result<u16, ConfigFault>) -> Result<nat, ConfigFault> {
    match r {
        Ok(x) => Ok(x as nat),
        Err(e) => Err(e),
    }
}

pub open spec fn u8_result(r: Result<u8, ConfigFault>) -> Result<nat, ConfigFault> {
    match r {
        Ok(x) => Ok(x as nat),
        Err(e) => Err(e),
    }
}

/// Parses the settings text.
pub fn load_config(text: &str) -> (r: Result<Config, ConfigFault>)
    ensures
        r is Ok <==> parsed_config(text@) is Some,
        r matches Ok(c) ==> config_entries(c) == parsed_config(text@)->0,
        r matches Err(e) ==> e == ConfigFault::InvalidConfig,
{
    match config_from_text(text) {
        Ok(c) => Ok(c),
        Err(_) => Err(ConfigFault::InvalidConfig),
    }
}

fn str_value(cfg: &Config, key: &str) -> (r: Result<String, ConfigFault>)
    requires
        is_lower_key(key@),
    ensures
        string_result(r) == str_setting(*cfg, key@),
{
    match config_get_str(cfg, key) {
        Ok(s) => Ok(s),
        Err(_) => Err(ConfigFault::NoItem),
    }
}

fn u16_value(cfg: &Config, key: &str) -> (r: Result<u16, ConfigFault>)
    requires
        is_lower_key(key@),
    ensures
        u16_result(r) == num_setting(*cfg, key@, u16::MAX as nat),
{
    match config_get_u16(cfg, key) {
        Ok(x) => Ok(x),
        Err(_) => Err(ConfigFault::NoNumber),
    }
}

/// The network device the gateway works on; it also names the log directory.
pub fn device(cfg: &Config) -> (r: Result<String, ConfigFault>)
    ensures
        string_result(r) == str_setting(*cfg, "device"@),
{
    proof {
        reveal_strlit("device");
    }
    str_value(cfg, "device")
}

/// The DNS server that host names are looked up at.
pub fn dns_server(cfg: &Config) -> (r: Result<String, ConfigFault>)
    ensures
        string_result(r) == str_setting(*cfg, "dns_server"@),
{
    proof {
        reveal_strlit("dns_server");
    }
    str_value(cfg, "dns_server")
}

/// The address of the VPS that the tunnel lines connect to.
pub fn vps_ip(cfg: &Config) -> (r: Result<String, ConfigFault>)
    ensures
        string_result(r) == str_setting(*cfg, "vps_ip"@),
{
    proof {
        reveal_strlit("vps_ip");
    }
    str_value(cfg, "vps_ip")
}

/// The port the gateway listens on for TCP.
pub fn tcp_port(cfg: &Config) -> (r: Result<u16, ConfigFault>)
    ensures
        u16_result(r) == num_setting(*cfg, "tcp_port"@, u16::MAX as nat),
{
    proof {
        reveal_strlit("tcp_port");
    }
    u16_value(cfg, "tcp_port")
}

/// The port the gateway listens on for UDP.
pub fn udp_port(cfg: &Config) -> (r: Result<u16, ConfigFault>)
    ensures
        u16_result(r) == num_setting(*cfg, "udp_port"@, u16::MAX as nat),
{
    proof {
        reveal_strlit("udp_port");
    }
    u16_value(cfg, "udp_port")
}

/// The VPS's TCP port.
pub fn vps_tcp_port(cfg: &Config) -> (r: Result<u16, ConfigFault>)
    ensures
        u16_result(r) == num_setting(*cfg, "vps_tcp_port"@, u16::MAX as nat),
{
    proof {
        reveal_strlit("vps_tcp_port");
    }
    u16_value(cfg, "vps_tcp_port")
}

/// The VPS's UDP port.
pub fn vps_udp_port(cfg: &Config) -> (r: Result<u16, ConfigFault>)
    ensures
        u16_result(r) == num_setting(*cfg, "vps_udp_port"@, u16::MAX as nat),
{
    proof {
        reveal_strlit("vps_udp_port");
    }
    u16_value(cfg, "vps_udp_port")
}

/// How many tunnel lines to the VPS are opened at start.
pub fn tcp_2_vps_line_init_num(cfg: &Config) -> (r: Result<u8, ConfigFault>)
    ensures
        u8_result(r) == num_setting(*cfg, "tcp_2_vps_line_init_num"@, u8::MAX as nat),
{
    proof {
        reveal_strlit("tcp_2_vps_line_init_num");
    }
    match config_get_u8(cfg, "tcp_2_vps_line_init_num") {
        Ok(x) => Ok(x),
        Err(_) => Err(ConfigFault::NoNumber),
    }
}

} // verus!
