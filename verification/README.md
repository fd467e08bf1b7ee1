# connlib

The packet and address logic of a WireGuard tunnel's socket layer, verified
with Verus.

- `src/net.rs`: IP and socket addresses.
- `src/datagram.rs`: datagrams, and the iterator that cuts a received GRO
  batch into them; the partition laws.
- `src/recv.rs`: what becomes of a received batch.
- `src/transmit.rs`: the source-IP cache, the send calls for an outbound
  datagram (with GSO batching) and the handshake's request and reply.
- `src/network.rs`: IP networks and the longest-prefix routing of packets to
  peers, on `ip_network_table`.
- `src/tun.rs`: the TUN device's packet copy and route split.
- `src/tunnel.rs`: the decisions of the tunnel's event loops, as step
  functions from what a poll gave to what to do next, and the queue of
  peers to stop.
- `app/`: the sockets themselves (tokio, quinn-udp, socket2), which perform
  the system calls and leave every decision to the library. The tunnel and
  the Windows TUN device are not there: they rest on the project's own
  crates (`snownet`, `connlib_shared`, `firezone_connection`) and on
  `wintun`, which cannot be had here.
