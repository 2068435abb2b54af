# freight_train

The verified core of the freight-train tunnel (a client that joins a remote
network through a gateway, and the gateway that serves it).

`src/` is checked by Verus:

- `ip`, `nat_table`: IPv4 addresses, networks and the client's address
  translation table, with the round-trip law of convert and reverse.
- `protocol`, `framing`, `ip_packet`: the tunnel's frames, their
  length-delimited framing on the wire (through `tokio-util`) and the IP
  packet parser (through `packet`).
- `client_session`, `server_session`: the two sides of a session as state
  machines from event to action, with the handshake laws and the law that
  the two handshakes fit together; `session_laws` states the order of the
  client's requests and the server's session states over whole sessions.
- `gateway`, `network_plan`, `quic`, `server_config`: the gateway's networks,
  the routing of packets from a network's tun device to sessions, the
  addresses it sets up (through `ipnet`), the VRF table ids it hands out, and
  its configuration.
- `client_config`, `commands`, `login_url`, `schema`: the client's
  configuration and the decisions of its commands (through `cidr` for network
  texts and `url` for the URL a login records).

`app/` runs the client's command line around the library: sockets, the tun
device, files and prompts. It also holds the gateway's session server, its
network set-up over netlink and its QUIC transport (`app/server`), but no
`main` starts them: the gateway's gRPC front end, which would call them, is
not part of this crate.
