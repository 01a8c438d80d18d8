# kftun

A UDP tunnel and relay proxies for game servers, with their core verified in
Verus.

- `src/` is the verified library:
  - `protocol`: the tunnel's datagram format (announce, echo and data
    messages), with the laws that each message reads back as written and that
    what reads as a message is its own encoding.
  - `query`, `relay`, `public_relay`: how the relays rewrite the game server's
    status replies (game port and server name tag), and when the rewriting is
    defined.
  - `decimal`: unsigned decimal numbers as `str::parse` reads them.
  - `session`, `relay`: what the relays do on receive errors.
  - `cli`, `proxy_cli`: the tunnel's and the relays' command lines.
  - `routes`: where each tunnel end sends what it receives: the routes of the
    end beside the game server, and the per-port sockets of the end beside the
    clients.
  - `sessions`: the relays' session table: one socket per client, opened on
    the first datagram, dropped at a cleanup after a timeout.
  - `stun`: the STUN server list and which port still needs asking.
  - `peer`: socket addresses as plain values.
- `app/` holds the programs: sockets, threads, STUN discovery and printing.
- `tests/` runs the library on concrete values.
