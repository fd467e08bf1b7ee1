use vstd::prelude::*;

use crate::net::{IpAddr, SocketAddr};
use crate::network::{is_longest_match, network_contains, peer_by_ip, IpNetwork, PeersByIp};
use std::collections::VecDeque;

verus! {

/// Statistics of a tunnel. There are none to report yet.
#[derive(Debug, Clone)]
pub struct TunnelStats {}

/// How an encapsulated packet of the connection pool leaves: from the
/// socket bound to its source address, or through the relay socket where it
/// has none.
#[derive(Clone, Copy, Debug, PartialEq, Eq, Structural)]
pub enum SendVia {
    Direct { src: SocketAddr },
    Relay,
}

/// Where a packet of the connection pool with source `src` is sent from.
pub open spec fn route_transmit_spec(src: Option<SocketAddr>) -> SendVia {
    match src {
        Some(s) => SendVia::Direct { src: s },
        None => SendVia::Relay,
    }
}

/// A packet of the connection pool that has a source address, of either
/// family, goes out from the socket bound to that address; only one without
/// a source goes through the relay.
pub proof fn lemma_route_transmit_by_source()
    ensures
        forall|s: SocketAddr| #[trigger] route_transmit_spec(Some(s)) == (SendVia::Direct { src: s }),
        route_transmit_spec(None) == SendVia::Relay,
        forall|src: Option<SocketAddr>|
            (#[trigger] route_transmit_spec(src) is Relay) <==> src is None,
{
}

/// Where a packet of the connection pool with source `src` is sent from:
/// the socket bound to `src`, or the relay where it has none.
pub fn route_transmit(src: Option<SocketAddr>) -> (r: SendVia)
    ensures
        r == route_transmit_spec(src),
{
    match src {
        Some(s) => SendVia::Direct { src: s },
        None => SendVia::Relay,
    }
}

/// What the connection pool reports about its connections.
#[derive(Clone, Debug)]
pub enum NodeEvent<TId> {
    SignalIceCandidate { connection: TId, candidate: String },
    ConnectionEstablished(TId),
    ConnectionFailed(TId),
}

/// A local ICE candidate to be signalled to the peer of `conn_id`.
#[derive(Clone, Debug)]
pub struct IceCandidateSignal<TId> {
    pub conn_id: TId,
    pub candidate: String,
}

/// What the tunnel reports of an event of the connection pool: a new local
/// candidate is signalled; established and failed connections are only
/// logged.
pub fn signal_from_node_event<TId>(event: NodeEvent<TId>) -> (r: Option<IceCandidateSignal<TId>>)
    ensures
        event matches NodeEvent::SignalIceCandidate { connection, candidate } ==> r matches Some(
            s,
        ) && s.conn_id == connection && s.candidate == candidate,
        !(event is SignalIceCandidate) ==> r is None,
{
    match event {
        NodeEvent::SignalIceCandidate { connection, candidate } => Some(
            IceCandidateSignal { conn_id: connection, candidate },
        ),
        NodeEvent::ConnectionEstablished(_) => None,
        NodeEvent::ConnectionFailed(_) => None,
    }
}

/// The outcome of polling the TUN device once.
pub enum DevicePoll<T, E> {
    /// The device produced something.
    Ready(T),
    /// The device stopped.
    Stopped,
    /// Reading from the device failed.
    Failed(E),
    /// Nothing yet.
    Pending,
}

/// Where an event loop goes on after a step.
#[derive(Clone, Copy, Debug, PartialEq, Eq, Structural)]
pub enum LoopNext {
    /// Back to the top of the loop.
    Restart,
    /// On to the loop's next source of events.
    Continue,
}

/// What the event loop does after polling the device.
pub enum DeviceStep<T, E> {
    /// Hand this to the caller.
    Return(Result<T, E>),
    /// Route this packet to its peer, then go on as told.
    Handle(T, LoopNext),
    /// Go on as told.
    Next(LoopNext),
}

/// The client's reaction to a poll of its device, with `attached` telling
/// whether a device is attached: an event is returned; a stopped device is
/// detached and the loop starts over; a failed device is detached, so that
/// it is not polled again, and the failure returned; otherwise the loop goes
/// on.
pub fn on_client_device_poll<T, E>(attached: &mut bool, poll: DevicePoll<T, E>) -> (r: DeviceStep<T, E>)
    ensures
        poll matches DevicePoll::Ready(t) ==> r matches DeviceStep::Return(Ok(x)) && x == t
            && *final(attached) == *old(attached),
        poll is Stopped ==> (r matches DeviceStep::Next(LoopNext::Restart)) && !*final(attached),
        poll matches DevicePoll::Failed(e) ==> r matches DeviceStep::Return(Err(x)) && x == e
            && !*final(attached),
        poll is Pending ==> (r matches DeviceStep::Next(LoopNext::Continue)) && *final(attached)
            == *old(attached),
{
    match poll {
        DevicePoll::Ready(t) => DeviceStep::Return(Ok(t)),
        DevicePoll::Stopped => {
            *attached = false;
            DeviceStep::Next(LoopNext::Restart)
        },
        DevicePoll::Failed(e) => {
            *attached = false;
            DeviceStep::Return(Err(e))
        },
        DevicePoll::Pending => DeviceStep::Next(LoopNext::Continue),
    }
}

/// The gateway's reaction to a poll of its device: a packet is routed and
/// the loop starts over; a stopped device is detached and the loop goes on;
/// a failure is returned, the device staying attached; otherwise the loop
/// goes on.
pub fn on_gateway_device_poll<T, E>(attached: &mut bool, poll: DevicePoll<T, E>) -> (r: DeviceStep<
    T,
    E,
>)
    ensures
        poll matches DevicePoll::Ready(t) ==> r matches DeviceStep::Handle(x, LoopNext::Restart)
            && x == t && *final(attached) == *old(attached),
        poll is Stopped ==> (r matches DeviceStep::Next(LoopNext::Continue)) && !*final(attached),
        poll matches DevicePoll::Failed(e) ==> r matches DeviceStep::Return(Err(x)) && x == e
            && *final(attached) == *old(attached),
        poll is Pending ==> (r matches DeviceStep::Next(LoopNext::Continue)) && *final(attached)
            == *old(attached),
{
    match poll {
        DevicePoll::Ready(t) => DeviceStep::Handle(t, LoopNext::Restart),
        DevicePoll::Stopped => {
            *attached = false;
            DeviceStep::Next(LoopNext::Continue)
        },
        DevicePoll::Failed(e) => DeviceStep::Return(Err(e)),
        DevicePoll::Pending => DeviceStep::Next(LoopNext::Continue),
    }
}

/// What the client's DNS resolver made of a packet read from the device.
pub enum DnsHandling<P> {
    /// A DNS query it answered: the answer goes back to the device.
    Answered(P),
    /// A DNS query it took over.
    Consumed,
    /// Not a DNS query for it: a packet for `dest`.
    NotDns { dest: IpAddr },
}

/// What becomes of a packet read from the device.
pub enum OutboundAction<P> {
    /// Write this back to the device.
    WriteToDevice(P),
    /// Encapsulate it for this peer.
    ToPeer(u128),
    /// No peer serves the destination yet: ask for a connection to it.
    ConnectionIntent(IpAddr),
    /// Drop it.
    Drop,
}

/// The client's handling of a packet read from its device: DNS answers go
/// back to the device; a packet for a destination that a peer serves goes
/// to the peer of the most specific network; for any other destination a
/// connection is asked for.
pub fn route_client_packet<P>(peers_by_ip: &PeersByIp, dns: DnsHandling<P>) -> (r: OutboundAction<P>)
    requires
        peers_by_ip.wf(),
    ensures
        dns matches DnsHandling::Answered(p) ==> r matches OutboundAction::WriteToDevice(x) && x == p,
        dns is Consumed ==> r is Drop,
        dns matches DnsHandling::NotDns { dest } ==> match r {
            OutboundAction::ToPeer(peer) => (exists|net: IpNetwork|
                is_longest_match(peers_by_ip.view(), dest, net) && peers_by_ip.view()[net] == peer)
                && forall|net: IpNetwork|
                is_longest_match(peers_by_ip.view(), dest, net) ==> peers_by_ip.view()[net] == peer,
            OutboundAction::ConnectionIntent(ip) => ip == dest && forall|net: IpNetwork| #[trigger]
                peers_by_ip.view().contains_key(net) ==> !network_contains(net, dest),
            _ => false,
        },
{
    match dns {
        DnsHandling::Answered(p) => OutboundAction::WriteToDevice(p),
        DnsHandling::Consumed => OutboundAction::Drop,
        DnsHandling::NotDns { dest } => match peer_by_ip(peers_by_ip, dest) {
            Some(peer) => OutboundAction::ToPeer(peer),
            None => OutboundAction::ConnectionIntent(dest),
        },
    }
}

/// The gateway's handling of a packet for `dest` read from its device: it
/// goes to the peer of the most specific network that contains `dest`, and
/// is dropped where no peer serves `dest`.
pub fn route_gateway_packet<P>(peers_by_ip: &PeersByIp, dest: IpAddr) -> (r: OutboundAction<P>)
    requires
        peers_by_ip.wf(),
    ensures
        match r {
            OutboundAction::ToPeer(peer) => (exists|net: IpNetwork|
                is_longest_match(peers_by_ip.view(), dest, net) && peers_by_ip.view()[net] == peer)
                && forall|net: IpNetwork|
                is_longest_match(peers_by_ip.view(), dest, net) ==> peers_by_ip.view()[net] == peer,
            OutboundAction::Drop => forall|net: IpNetwork| #[trigger]
                peers_by_ip.view().contains_key(net) ==> !network_contains(net, dest),
            _ => false,
        },
{
    match peer_by_ip(peers_by_ip, dest) {
        Some(peer) => OutboundAction::ToPeer(peer),
        None => OutboundAction::Drop,
    }
}

/// The peer whose connection is to be stopped next: the one that has waited
/// longest, which leaves the queue. The caller has the role state forget
/// that peer.
pub fn next_peer_to_stop<Id: Copy>(peers_to_stop: &mut VecDeque<Id>) -> (r: Option<Id>)
    ensures
        old(peers_to_stop)@.len() > 0 ==> r == Some(old(peers_to_stop)@[0])
            && final(peers_to_stop)@ == old(peers_to_stop)@.drop_first(),
        old(peers_to_stop)@.len() == 0 ==> r is None
            && final(peers_to_stop)@ == old(peers_to_stop)@,
{
    peers_to_stop.pop_front()
}

/// Queues the peers that the role state reported expired when its peers
/// were refreshed, in the order reported, behind those already waiting to be stopped.
pub fn queue_expired_peers<Id>(peers_to_stop: &mut VecDeque<Id>, expired: VecDeque<Id>)
    ensures
        final(peers_to_stop)@ == old(peers_to_stop)@ + expired@,
{
    let mut expired = expired;
    peers_to_stop.append(&mut expired);
}

/// The sources of events that the tunnel's common event loop polls, in the
/// order it polls them.
#[derive(Clone, Copy, Debug, PartialEq, Eq, Structural)]
pub enum CommonPhase {
    /// Stop the peer that waited longest (`next_peer_to_stop`).
    StopPeer,
    /// Poll the timer that refreshes the peers.
    PeerRefresh,
    /// Poll the timer that refreshes the device's MTU.
    MtuRefresh,
    /// Poll the connections.
    Connections,
    /// Poll the role state.
    Role,
}

/// What polling one source of the common event loop gave.
pub enum CommonOutcome<E> {
    /// A peer was stopped, or none was waiting.
    PeerStopped,
    /// The timer fired, or did not.
    Ticked(bool),
    /// The MTU timer fired, or did not; whether a device is attached.
    MtuTicked { ticked: bool, device_attached: bool },
    /// The event that the source had ready, if any.
    Polled(Option<E>),
}

/// What the common event loop does before going on.
#[derive(Clone, Copy, Debug, PartialEq, Eq, Structural)]
pub enum CommonAction {
    Nothing,
    /// Queue the peers that the role state reports expired
    /// (`queue_expired_peers`).
    QueueExpiredPeers,
    /// Refresh the device's MTU.
    RefreshMtu,
}

/// Where the common event loop goes on.
pub enum CommonNext<E> {
    /// Poll this source next (`StopPeer` starts the loop over).
    Poll(CommonPhase),
    /// Hand this event to the caller.
    Return(E),
    /// Nothing is ready.
    Pending,
}

/// One step of the common event loop: do `action`, then go on to `next`.
pub struct CommonStep<E> {
    pub action: CommonAction,
    pub next: CommonNext<E>,
}

/// Whether `outcome` is what polling `phase` can give.
pub open spec fn common_outcome_fits<E>(phase: CommonPhase, outcome: CommonOutcome<E>) -> bool {
    match phase {
        CommonPhase::StopPeer => outcome is PeerStopped,
        CommonPhase::PeerRefresh => outcome is Ticked,
        CommonPhase::MtuRefresh => outcome is MtuTicked,
        CommonPhase::Connections => outcome is Polled,
        CommonPhase::Role => outcome is Polled,
    }
}

/// One step of the tunnel's common event loop: peers are stopped, then the
/// peer refresh timer is polled (a tick queues the expired peers and starts
/// over), then the MTU timer (a tick refreshes the MTU, or starts over where
/// no device is attached), then the connections, whose event comes before
/// any of the role state; with nothing ready the loop is pending.
pub fn common_step<E>(phase: CommonPhase, outcome: CommonOutcome<E>) -> (r: CommonStep<E>)
    requires
        common_outcome_fits(phase, outcome),
    ensures
        phase is StopPeer ==> r.action == CommonAction::Nothing && r.next matches CommonNext::Poll(
            CommonPhase::PeerRefresh,
        ),
        outcome matches CommonOutcome::Ticked(t) ==> if t {
            r.action == CommonAction::QueueExpiredPeers && r.next matches CommonNext::Poll(
                CommonPhase::StopPeer,
            )
        } else {
            r.action == CommonAction::Nothing && r.next matches CommonNext::Poll(
                CommonPhase::MtuRefresh,
            )
        },
        outcome matches CommonOutcome::MtuTicked { ticked, device_attached } ==> if !ticked {
            r.action == CommonAction::Nothing && r.next matches CommonNext::Poll(
                CommonPhase::Connections,
            )
        } else if device_attached {
            r.action == CommonAction::RefreshMtu && r.next matches CommonNext::Poll(
                CommonPhase::Connections,
            )
        } else {
            r.action == CommonAction::Nothing && r.next matches CommonNext::Poll(
                CommonPhase::StopPeer,
            )
        },
        phase is Connections ==> r.action == CommonAction::Nothing && match outcome {
            CommonOutcome::Polled(Some(e)) => r.next matches CommonNext::Return(x) && x == e,
            _ => r.next matches CommonNext::Poll(CommonPhase::Role),
        },
        phase is Role ==> r.action == CommonAction::Nothing && match outcome {
            CommonOutcome::Polled(Some(e)) => r.next matches CommonNext::Return(x) && x == e,
            _ => r.next is Pending,
        },
{
    match phase {
        CommonPhase::StopPeer => CommonStep {
            action: CommonAction::Nothing,
            next: CommonNext::Poll(CommonPhase::PeerRefresh),
        },
        CommonPhase::PeerRefresh => match outcome {
            CommonOutcome::Ticked(true) => CommonStep {
                action: CommonAction::QueueExpiredPeers,
                next: CommonNext::Poll(CommonPhase::StopPeer),
            },
            _ => CommonStep {
                action: CommonAction::Nothing,
                next: CommonNext::Poll(CommonPhase::MtuRefresh),
            },
        },
        CommonPhase::MtuRefresh => match outcome {
            CommonOutcome::MtuTicked { ticked: true, device_attached: true } => CommonStep {
                action: CommonAction::RefreshMtu,
                next: CommonNext::Poll(CommonPhase::Connections),
            },
            CommonOutcome::MtuTicked { ticked: true, device_attached: false } => CommonStep {
                action: CommonAction::Nothing,
                next: CommonNext::Poll(CommonPhase::StopPeer),
            },
            _ => CommonStep {
                action: CommonAction::Nothing,
                next: CommonNext::Poll(CommonPhase::Connections),
            },
        },
        CommonPhase::Connections => match outcome {
            CommonOutcome::Polled(Some(e)) => CommonStep {
                action: CommonAction::Nothing,
                next: CommonNext::Return(e),
            },
            _ => CommonStep {
                action: CommonAction::Nothing,
                next: CommonNext::Poll(CommonPhase::Role),
            },
        },
        CommonPhase::Role => match outcome {
            CommonOutcome::Polled(Some(e)) => CommonStep {
                action: CommonAction::Nothing,
                next: CommonNext::Return(e),
            },
            _ => CommonStep { action: CommonAction::Nothing, next: CommonNext::Pending },
        },
    }
}

/// Peers are stopped first come, first served, each once: after peers
/// `expired` were queued behind those `waiting`, the `i`-th peer that
/// `next_peer_to_stop` gives is the `i`-th of `waiting` followed by
/// `expired`, and the queue is then the rest of them.
pub proof fn lemma_peers_stopped_in_order<Id>(waiting: Seq<Id>, expired: Seq<Id>, i: int)
    requires
        0 <= i < waiting.len() + expired.len(),
    ensures
        (waiting + expired).skip(i)[0] == (if i < waiting.len() {
            waiting[i]
        } else {
            expired[i - waiting.len()]
        }),
        (waiting + expired).skip(i).drop_first() == (waiting + expired).skip(i + 1),
{
    assert((waiting + expired).skip(i).drop_first() =~= (waiting + expired).skip(i + 1));
}

/// What reading one socket of the connections gave.
pub enum SocketRead<P, E> {
    /// Nothing to read yet.
    Pending,
    /// Reading failed.
    Failed,
    /// A datagram was read and decapsulated: a packet for the device, none
    /// (it was for the connection pool itself), or an error.
    Decapsulated(Result<Option<P>, E>),
}

/// Which socket the connections read from.
#[derive(Clone, Copy, Debug, PartialEq, Eq, Structural)]
pub enum SocketKind {
    /// The sockets bound to the local interfaces.
    Udp,
    /// The socket that talks to relays.
    Relay,
}

/// What reading the connections' sockets does next.
pub enum SocketsStep<P> {
    /// Read the relay socket next.
    ReadRelay,
    /// Done: the packet for the device, if any.
    Ready(Option<P>),
    /// Nothing to read.
    Pending,
}

/// One step of reading the connections' sockets: the interface sockets come
/// first and the relay socket only where they have nothing; a datagram
/// decapsulated into a packet gives that packet, any other datagram and any
/// failure give none.
pub fn sockets_step<P, E>(socket: SocketKind, read: SocketRead<P, E>) -> (r: SocketsStep<P>)
    ensures
        read is Pending ==> if socket is Udp {
            r is ReadRelay
        } else {
            r is Pending
        },
        read is Failed ==> r matches SocketsStep::Ready(None),
        read matches SocketRead::Decapsulated(d) ==> match d {
            Ok(Some(p)) => r matches SocketsStep::Ready(Some(x)) && x == p,
            _ => r matches SocketsStep::Ready(None),
        },
{
    match read {
        SocketRead::Pending => match socket {
            SocketKind::Udp => SocketsStep::ReadRelay,
            SocketKind::Relay => SocketsStep::Pending,
        },
        SocketRead::Failed => SocketsStep::Ready(None),
        SocketRead::Decapsulated(Ok(Some(p))) => SocketsStep::Ready(Some(p)),
        SocketRead::Decapsulated(_) => SocketsStep::Ready(None),
    }
}

/// What the interface watcher reports.
#[derive(Clone, Copy, Debug, PartialEq, Eq, Structural)]
pub enum InterfaceEvent {
    /// A local address came up.
    Up(IpAddr),
    /// A local address went away.
    Down(IpAddr),
    /// Watching failed.
    Error,
}

/// The sources of events that the connections poll, in the order they poll
/// them.
#[derive(Clone, Copy, Debug, PartialEq, Eq, Structural)]
pub enum ConnectionsPhase {
    /// The packets that the connection pool wants sent.
    Transmits,
    /// The connection pool's events.
    PoolEvent,
    /// The connection pool's timer.
    Timeout,
    /// The interface watcher.
    Interfaces,
}

/// What polling one source of the connections gave.
pub enum ConnectionsOutcome<TId> {
    /// The next packet to send, by its source address, if any is left.
    Transmit(Option<Option<SocketAddr>>),
    /// The next event of the pool, if any.
    PoolEvent(Option<NodeEvent<TId>>),
    /// The timer fired, or did not.
    Timeout(bool),
    /// The watcher's report, if it has one.
    Interface(Option<InterfaceEvent>),
}

/// What the connections do before going on.
#[derive(Clone, Copy, Debug, PartialEq, Eq, Structural)]
pub enum ConnectionsAction {
    Nothing,
    /// Send the pool's packet this way.
    Send(SendVia),
    /// Hand the pool the timeout and re-arm its timer.
    HandleTimeout,
    /// Bind a socket to this address and give it to the pool.
    BindInterface(IpAddr),
}

/// Where the connections' event loop goes on.
pub enum ConnectionsNext<TId> {
    /// Poll this source next (`Transmits` starts the loop over).
    Poll(ConnectionsPhase),
    /// Hand this candidate to the caller.
    Signal(IceCandidateSignal<TId>),
    /// Nothing is ready.
    Pending,
}

/// One step of the connections' event loop: do `action`, then go on to
/// `next`.
pub struct ConnectionsStep<TId> {
    pub action: ConnectionsAction,
    pub next: ConnectionsNext<TId>,
}

/// Whether `outcome` is what polling `phase` can give.
pub open spec fn connections_outcome_fits<TId>(
    phase: ConnectionsPhase,
    outcome: ConnectionsOutcome<TId>,
) -> bool {
    match phase {
        ConnectionsPhase::Transmits => outcome is Transmit,
        ConnectionsPhase::PoolEvent => outcome is PoolEvent,
        ConnectionsPhase::Timeout => outcome is Timeout,
        ConnectionsPhase::Interfaces => outcome is Interface,
    }
}

/// One step of the connections' event loop: every packet the pool wants
/// sent goes out first (see `route_transmit`), one per step; then the pool's
/// events, of which a new local candidate is handed out (see
/// `signal_from_node_event`); then the pool's timer, whose firing is
/// handled and starts the loop over; then the interface watcher, a new
/// address being bound; after that nothing is ready. A vanishing address is
/// not handled: the watcher must not report one.
pub fn connections_step<TId>(phase: ConnectionsPhase, outcome: ConnectionsOutcome<TId>) -> (r:
    ConnectionsStep<TId>)
    requires
        connections_outcome_fits(phase, outcome),
        !(outcome matches ConnectionsOutcome::Interface(Some(InterfaceEvent::Down(_)))),
    ensures
        outcome matches ConnectionsOutcome::Transmit(t) ==> match t {
            Some(src) => r.action == ConnectionsAction::Send(route_transmit_spec(src))
                && r.next matches ConnectionsNext::Poll(ConnectionsPhase::Transmits),
            None => r.action == ConnectionsAction::Nothing && r.next matches ConnectionsNext::Poll(
                ConnectionsPhase::PoolEvent,
            ),
        },
        outcome matches ConnectionsOutcome::PoolEvent(e) ==> r.action == ConnectionsAction::Nothing
            && match e {
            Some(NodeEvent::SignalIceCandidate { connection, candidate }) => r.next matches ConnectionsNext::Signal(s)
                && s.conn_id == connection && s.candidate == candidate,
            _ => r.next matches ConnectionsNext::Poll(ConnectionsPhase::Timeout),
        },
        outcome matches ConnectionsOutcome::Timeout(fired) ==> if fired {
            r.action == ConnectionsAction::HandleTimeout && r.next matches ConnectionsNext::Poll(
                ConnectionsPhase::Transmits,
            )
        } else {
            r.action == ConnectionsAction::Nothing && r.next matches ConnectionsNext::Poll(
                ConnectionsPhase::Interfaces,
            )
        },
        outcome matches ConnectionsOutcome::Interface(i) ==> r.next is Pending && match i {
            Some(InterfaceEvent::Up(ip)) => r.action == ConnectionsAction::BindInterface(ip),
            _ => r.action == ConnectionsAction::Nothing,
        },
{
    match outcome {
        ConnectionsOutcome::Transmit(Some(src)) => ConnectionsStep {
            action: ConnectionsAction::Send(route_transmit(src)),
            next: ConnectionsNext::Poll(ConnectionsPhase::Transmits),
        },
        ConnectionsOutcome::Transmit(None) => ConnectionsStep {
            action: ConnectionsAction::Nothing,
            next: ConnectionsNext::Poll(ConnectionsPhase::PoolEvent),
        },
        ConnectionsOutcome::PoolEvent(Some(event)) => match signal_from_node_event(event) {
            Some(signal) => ConnectionsStep {
                action: ConnectionsAction::Nothing,
                next: ConnectionsNext::Signal(signal),
            },
            None => ConnectionsStep {
                action: ConnectionsAction::Nothing,
                next: ConnectionsNext::Poll(ConnectionsPhase::Timeout),
            },
        },
        ConnectionsOutcome::PoolEvent(None) => ConnectionsStep {
            action: ConnectionsAction::Nothing,
            next: ConnectionsNext::Poll(ConnectionsPhase::Timeout),
        },
        ConnectionsOutcome::Timeout(true) => ConnectionsStep {
            action: ConnectionsAction::HandleTimeout,
            next: ConnectionsNext::Poll(ConnectionsPhase::Transmits),
        },
        ConnectionsOutcome::Timeout(false) => ConnectionsStep {
            action: ConnectionsAction::Nothing,
            next: ConnectionsNext::Poll(ConnectionsPhase::Interfaces),
        },
        ConnectionsOutcome::Interface(Some(InterfaceEvent::Up(ip))) => ConnectionsStep {
            action: ConnectionsAction::BindInterface(ip),
            next: ConnectionsNext::Pending,
        },
        ConnectionsOutcome::Interface(_) => ConnectionsStep {
            action: ConnectionsAction::Nothing,
            next: ConnectionsNext::Pending,
        },
    }
}

/// What becomes of a packet for the device that the connections' sockets
/// gave.
pub enum InboundAction<P> {
    /// Write it to the device.
    WriteToDevice(P),
    /// Drop it.
    Drop,
}

/// What the tunnel does with a packet from the sockets: `action`, then it
/// goes on to `next`.
pub struct InboundStep<P> {
    pub action: InboundAction<P>,
    pub next: LoopNext,
}

/// The peer that turns a packet from the sockets with source `source` back
/// into a packet for the device: the one the source's most specific routed
/// network goes to; `None`, and the packet is dropped, where no routed
/// network contains the source.
pub fn inbound_peer(peers_by_ip: &PeersByIp, source: IpAddr) -> (r: Option<u128>)
    requires
        peers_by_ip.wf(),
    ensures
        r matches Some(peer) ==> (exists|net: IpNetwork|
            is_longest_match(peers_by_ip.view(), source, net) && peers_by_ip.view()[net] == peer)
            && forall|net: IpNetwork|
            is_longest_match(peers_by_ip.view(), source, net) ==> peers_by_ip.view()[net] == peer,
        r is None ==> forall|net: IpNetwork| #[trigger]
            peers_by_ip.view().contains_key(net) ==> !network_contains(net, source),
{
    peer_by_ip(peers_by_ip, source)
}

/// What the tunnel does with the result of the peer's turning a packet from
/// the sockets back into one for the device: with a device attached the
/// packet is written to it; without one, or where the peer refused the
/// packet, it is dropped. Either way the loop starts over.
pub fn on_untransformed<P, E>(device_attached: bool, untransformed: Result<P, E>) -> (r: InboundStep<P>)
    ensures
        r.next == LoopNext::Restart,
        untransformed matches Ok(p) ==> if device_attached {
            r.action matches InboundAction::WriteToDevice(x) && x == p
        } else {
            r.action is Drop
        },
        untransformed is Err ==> r.action is Drop,
{
    match untransformed {
        Ok(p) => if device_attached {
            InboundStep { action: InboundAction::WriteToDevice(p), next: LoopNext::Restart }
        } else {
            InboundStep { action: InboundAction::Drop, next: LoopNext::Restart }
        },
        Err(_) => InboundStep { action: InboundAction::Drop, next: LoopNext::Restart },
    }
}

} // verus!
