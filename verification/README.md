# gateway

A tunnelling gateway. On the local side it accepts SOCKS5 clients and relays
each through one of a pool of "tunnel" lines kept open, by heart beats, to a
remote gateway; on the remote side it accepts those tunnel connections,
reads the host each client asked for, looks the host up over DNS, connects
to it and relays traffic both ways. Host, port and the first client message
cross the tunnel lightly obfuscated (`u8r`).

## Layout

- `src/` – the verified library (Verus).
  - `global.rs` – the byte obfuscation, big-endian codec, frame counter and
    id generator.
  - `text.rs` – decimal, dotted-quad and `ip:port` text.
  - `config.rs` – the settings (`simple_config_parser` behind trusted
    wrappers).
  - `log.rs` – what a log message becomes and which file it goes to.
  - `line/` – one state machine per connection: tunnel (`tcp2vps`), SOCKS5
    client (`pc`), tunnelled client (`mainland`), outgoing (`world`) and DNS
    lines; `protocol.rs` holds the laws tying the two ends of a tunnel.
  - `gate/` – the table of lines and every decision taken over it: socket
    events, housekeeping, DNS lookups, tunnel pool.
- `app/` – the program: settings file, log files, clock, sockets, epoll and
  the event loop, which carries out what the library decides.
- `tests/` – tests of the library on concrete values.
