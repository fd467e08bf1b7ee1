//! Packet and address logic of the tunnel's socket layer: the addresses it
//! works with, the segmentation of received GRO batches into datagrams, the
//! choice of source address for outgoing datagrams, the splitting of
//! outgoing batches for GSO, and the small decisions of the TUN device.

pub mod net;
pub mod datagram;
pub mod recv;
pub mod transmit;
pub mod network;
pub mod tun;
pub mod tunnel;
