//! The routing state of the tunnel's end beside the game server.
//!
//! That end learns the address of the other end from its announce messages,
//! and learns, from each datagram that a client sends, at which address the
//! client with that port is. Data from the other end for a client port goes to
//! the address last learned for that port.
//!
//! The addresses are of any type the program uses (`A` for the other end, `I`
//! for a client's address without its port).

use vstd::prelude::*;
use crate::peer::PeerAddr;
use crate::protocol::{data_bytes, msg_data, Message, MessageView, HDR_LEN};
use std::collections::HashMap;

verus! {

broadcast use vstd::std_specs::hash::group_hash_axioms;

/// What to do with a message from the other end.
#[derive(Clone, Copy, PartialEq, Eq, Debug)]
pub enum ServerReply<I> {
    /// Answer with an announce; the sender is the other end from now on.
    Announce,
    /// Answer with an echo.
    Echo,
    /// Pass the payload on to the client at this address and port.
    ToClient(I, u16),
    /// The port belongs to no client seen so far: drop the payload.
    Drop,
}

/// The routes: the other end's address, once known, and each client port's
/// address.
pub struct ClientSideRoutes<A, I> {
    server_addr: Option<A>,
    client_ports: HashMap<u16, I>,
}

/// What the routes hold.
pub struct RoutesView<A, I> {
    pub server_addr: Option<A>,
    pub client_ports: Map<u16, I>,
}

impl<A, I> View for ClientSideRoutes<A, I> {
    type V = RoutesView<A, I>;

    closed spec fn view(&self) -> RoutesView<A, I> {
        RoutesView { server_addr: self.server_addr, client_ports: self.client_ports@ }
    }
}

/// The routes after a client datagram from port `port` at address `ip`, and
/// the address to which it goes on, if the other end is known.
pub open spec fn spec_from_client<A, I>(r: RoutesView<A, I>, port: u16, ip: I) -> (
    RoutesView<A, I>,
    Option<A>,
) {
    (
        RoutesView { server_addr: r.server_addr, client_ports: r.client_ports.insert(port, ip) },
        r.server_addr,
    )
}

/// The routes after message `msg` from `peer`, and the reply.
pub open spec fn spec_from_server<A, I>(r: RoutesView<A, I>, msg: MessageView, peer: A) -> (
    RoutesView<A, I>,
    ServerReply<I>,
) {
    match msg {
        MessageView::Announce => (
            RoutesView { server_addr: Some(peer), client_ports: r.client_ports },
            ServerReply::Announce,
        ),
        MessageView::Echo => (r, ServerReply::Echo),
        MessageView::Data(port, _) => if r.client_ports.contains_key(port) {
            (r, ServerReply::ToClient(r.client_ports[port], port))
        } else {
            (r, ServerReply::Drop)
        },
    }
}

impl<A: Copy, I: Copy> ClientSideRoutes<A, I> {
    /// No other end and no client known yet.
    pub fn new() -> (r: Self)
        ensures
            r@.server_addr is None,
            r@.client_ports == Map::<u16, I>::empty(),
    {
        ClientSideRoutes { server_addr: None, client_ports: HashMap::new() }
    }

    /// A client datagram came from port `port` at address `ip`: remembers the
    /// address for the port and says where to send the datagram on.
    pub fn from_client(&mut self, port: u16, ip: I) -> (to: Option<A>)
        ensures
            (final(self)@, to) == spec_from_client(old(self)@, port, ip),
    {
        self.client_ports.insert(port, ip);
        self.server_addr
    }

    /// Message `msg` came from `peer`: says how to answer it, and takes the
    /// sender of an announce for the other end.
    pub fn from_server(&mut self, msg: &Message, peer: A) -> (reply: ServerReply<I>)
        ensures
            (final(self)@, reply) == spec_from_server(old(self)@, msg@, peer),
    {
        match msg {
            Message::Announce => {
                self.server_addr = Some(peer);
                ServerReply::Announce
            },
            Message::Echo => ServerReply::Echo,
            Message::Data(port, _) => match self.client_ports.get(port) {
                Some(ip) => ServerReply::ToClient(*ip, *port),
                None => ServerReply::Drop,
            },
        }
    }
}

/// Data from the other end for a port goes to the address last learned for
/// that port; learning another port's address does not change that.
pub proof fn lemma_data_reaches_last_client<A, I>(
    r: RoutesView<A, I>,
    port: u16,
    ip: I,
    other: u16,
    other_ip: I,
    payload: Seq<u8>,
    peer: A,
)
    requires
        other != port,
    ensures
        spec_from_server(spec_from_client(r, port, ip).0, MessageView::Data(port, payload), peer).1
            == ServerReply::ToClient(ip, port),
        spec_from_server(
            spec_from_client(spec_from_client(r, port, ip).0, other, other_ip).0,
            MessageView::Data(port, payload),
            peer,
        ).1 == ServerReply::ToClient(ip, port),
{
}

/// After an announce from `peer`, client datagrams go to `peer`; echoes and
/// data change nothing in the routes.
pub proof fn lemma_announce_sets_other_end<A, I>(
    r: RoutesView<A, I>,
    peer: A,
    port: u16,
    ip: I,
    msg: MessageView,
)
    ensures
        spec_from_client(spec_from_server(r, MessageView::Announce, peer).0, port, ip).1 == Some(
            peer,
        ),
        !(msg is Announce) ==> spec_from_server(r, msg, peer).0 == r,
{
}

/// What the tunnel end beside the clients does with what it receives from the
/// other end.
pub enum FromClient<'a, S> {
    /// Nothing came (an error or a timeout): announce this end again.
    Announce,
    /// A control message: nothing to do beyond noting it.
    Ignore,
    /// Data for a client port with a socket: send the payload to the game
    /// server on it.
    SendOn(&'a S),
    /// Data for a client port without a socket: open one, offer it with
    /// `add`, and send the payload on it.
    Open,
}

/// A [`FromClient`] with the socket by value.
pub enum FromClientDecision<S> {
    Announce,
    Ignore,
    SendOn(S),
    Open,
}

impl<'a, S> FromClient<'a, S> {
    pub open spec fn decision(&self) -> FromClientDecision<S> {
        match self {
            FromClient::Announce => FromClientDecision::Announce,
            FromClient::Ignore => FromClientDecision::Ignore,
            FromClient::SendOn(s) => FromClientDecision::SendOn(**s),
            FromClient::Open => FromClientDecision::Open,
        }
    }
}

/// The sockets of the tunnel end beside the clients, with their ports in the
/// order they were added.
struct PortTable<S> {
    order: Vec<u16>,
    sockets: HashMap<u16, S>,
}

/// The state of the tunnel end beside the clients: the game server's address,
/// and one socket towards it for each client port that sent data.
pub struct ServerSidePorts<S> {
    server: PeerAddr,
    table: PortTable<S>,
}

/// What that state holds.
pub struct ServerPortsView<S> {
    pub server: PeerAddr,
    /// Each client port's socket.
    pub ports: Map<u16, S>,
    /// The ports with a socket, in the order they got it.
    pub order: Seq<u16>,
}

/// Every port with a socket is listed once, and only those.
pub open spec fn ports_listed<S>(v: ServerPortsView<S>) -> bool {
    &&& v.order.no_duplicates()
    &&& forall|p: u16| #[trigger] v.ports.contains_key(p) <==> v.order.contains(p)
}

impl<S> View for ServerSidePorts<S> {
    type V = ServerPortsView<S>;

    closed spec fn view(&self) -> ServerPortsView<S> {
        ServerPortsView {
            server: self.server,
            ports: self.table.sockets@,
            order: self.table.order@,
        }
    }
}

/// The decision on what was received from the other end: `None` when the
/// receive failed or timed out.
pub open spec fn spec_server_side_from_client<S>(v: ServerPortsView<S>, received: Option<MessageView>) -> FromClientDecision<S> {
    match received {
        None => FromClientDecision::Announce,
        Some(MessageView::Data(port, _)) => if v.ports.contains_key(port) {
            FromClientDecision::SendOn(v.ports[port])
        } else {
            FromClientDecision::Open
        },
        Some(_) => FromClientDecision::Ignore,
    }
}

/// The state after a socket for `port` was offered, and whether it was taken:
/// only where the port had none, so no port's socket is ever replaced.
pub open spec fn spec_add<S>(v: ServerPortsView<S>, port: u16, socket: S) -> (ServerPortsView<S>, bool) {
    if v.ports.contains_key(port) {
        (v, false)
    } else {
        (
            ServerPortsView {
                ports: v.ports.insert(port, socket),
                order: v.order.push(port),
                ..v
            },
            true,
        )
    }
}

impl<S> ServerSidePorts<S> {
    #[verifier::type_invariant]
    spec fn inv(self) -> bool {
        ports_listed(self@)
    }

    /// No socket yet, towards the game server at `server`.
    pub fn new(server: PeerAddr) -> (t: Self)
        ensures
            t@.server == server,
            t@.ports == Map::<u16, S>::empty(),
            t@.order == Seq::<u16>::empty(),
    {
        let t = ServerSidePorts { server, table: PortTable { order: Vec::new(), sockets: HashMap::new() } };
        assert(t@.order =~= Seq::<u16>::empty());
        t
    }

    /// What to do with what was received from the other end.
    pub fn from_client(&self, received: Option<&Message>) -> (action: FromClient<'_, S>)
        ensures
            action.decision() == spec_server_side_from_client(
                self@,
                match received {
                    Some(m) => Some(m@),
                    None => None,
                },
            ),
    {
        match received {
            None => FromClient::Announce,
            Some(Message::Data(port, _)) => match self.table.sockets.get(port) {
                Some(socket) => FromClient::SendOn(socket),
                None => FromClient::Open,
            },
            Some(_) => FromClient::Ignore,
        }
    }

    /// Offers `socket` for `port`: keeps it where the port had none.
    pub fn add(&mut self, port: u16, socket: S) -> (added: bool)
        ensures
            (final(self)@, added) == spec_add(old(self)@, port, socket),
            ports_listed(final(self)@),
    {
        proof {
            use_type_invariant(&*self);
        }
        if self.table.sockets.get(&port).is_some() {
            return false;
        }
        assert(!self@.ports.contains_key(port));
        assert(!self@.order.contains(port));
        let ghost old_ports = self@.ports;
        let mut table = PortTable { order: Vec::new(), sockets: HashMap::new() };
        std::mem::swap(&mut table, &mut self.table);
        let ghost old_order = table.order@;
        assert(old_order == old(self)@.order);
        assert(table.sockets@ == old_ports);
        assert(ports_listed(old(self)@));
        table.sockets.insert(port, socket);
        table.order.push(port);
        proof {
            assert(!old_order.contains(port));
            assert forall|p: u16| #[trigger] table.sockets@.contains_key(p) <==> table.order@.contains(p) by {
                assert(table.order@ == old_order.push(port));
                if old_order.contains(p) {
                    let k = choose|k: int| 0 <= k < old_order.len() && old_order[k] == p;
                    assert(table.order@[k] == p);
                }
                if table.order@.contains(p) && p != port {
                    let k = choose|k: int| 0 <= k < table.order@.len() && table.order@[k] == p;
                    assert(k < old_order.len());
                    assert(old_order[k] == p);
                }
                if p == port {
                    assert(table.order@[old_order.len() as int] == port);
                }
            }
            assert forall|a: int, b: int| 0 <= a < table.order@.len() && 0 <= b < table.order@.len() && a != b
                implies table.order@[a] != table.order@[b] by {
                if a < old_order.len() && b < old_order.len() {
                } else if a < old_order.len() {
                    assert(old_order.contains(table.order@[a]));
                } else {
                    assert(old_order.contains(table.order@[b]));
                }
            }
        }
        self.table = table;
        true
    }

    /// How many client ports have a socket.
    pub fn count(&self) -> (n: usize)
        ensures
            n == self@.order.len(),
    {
        self.table.order.len()
    }

    /// The `i`-th port to get a socket, with that socket.
    pub fn port_at(&self, i: usize) -> (r: Option<(u16, &S)>)
        ensures
            i < self@.order.len() ==> (r matches Some((p, s)) && p == self@.order[i as int]
                && self@.ports.contains_key(p) && *s == self@.ports[p]),
            i >= self@.order.len() ==> r is None,
    {
        proof {
            use_type_invariant(self);
        }
        if i >= self.table.order.len() {
            return None;
        }
        let p = self.table.order[i];
        assert(self@.order.contains(p));
        assert(ports_listed(self@));
        assert(self@.ports.contains_key(p));
        assert(self.table.sockets@.contains_key(p));
        match self.table.sockets.get(&p) {
            Some(s) => Some((p, s)),
            None => None,
        }
    }

    /// A datagram `data` came from `peer` on the socket of client port `port`:
    /// where it is from the game server, writes the data message for the
    /// client into `buf` and returns it; datagrams from anyone else are
    /// dropped and `buf` is left as it was.
    pub fn from_server<'b>(&self, peer: PeerAddr, port: u16, data: &[u8], buf: &'b mut [u8]) -> (msg:
        Option<&'b [u8]>)
        requires
            old(buf)@.len() >= HDR_LEN + 2 + data@.len(),
        ensures
            peer == self@.server ==> (msg matches Some(m) && m@ == data_bytes(port, data@)),
            peer == self@.server ==> final(buf)@ == data_bytes(port, data@) + old(buf)@.subrange(
                4 + data@.len() as int,
                old(buf)@.len() as int,
            ),
            peer != self@.server ==> msg is None && final(buf)@ == old(buf)@,
    {
        if peer == self.server {
            Some(msg_data(buf, port, data))
        } else {
            None
        }
    }
}

/// Each client port keeps the first socket it got: data for it is sent on that
/// socket, and later offers for the port are refused.
pub proof fn lemma_port_keeps_first_socket<S>(
    v: ServerPortsView<S>,
    port: u16,
    socket: S,
    other: S,
    payload: Seq<u8>,
)
    ensures
        ({
            let w = spec_add(v, port, socket).0;
            &&& w.ports.contains_key(port)
            &&& !v.ports.contains_key(port) ==> w.ports[port] == socket
            &&& spec_server_side_from_client(w, Some(MessageView::Data(port, payload)))
                == FromClientDecision::SendOn(w.ports[port])
            &&& spec_add(w, port, other).0 == w
            &&& !spec_add(w, port, other).1
        }),
{
}


/// Client datagrams never change what the routes know of the other end: each
/// goes to the address of the last announce, however many came before it.
pub proof fn lemma_client_datagrams_keep_other_end<A, I>(
    r: RoutesView<A, I>,
    peer: A,
    port: u16,
    ip: I,
    port2: u16,
    ip2: I,
)
    ensures
        spec_from_client(r, port, ip).0.server_addr == r.server_addr,
        spec_from_client(r, port, ip).1 == r.server_addr,
        spec_from_client(r, port, ip).0.client_ports.contains_key(port),
        spec_from_client(r, port, ip).0.client_ports[port] == ip,
        ({
            let a = spec_from_server(r, MessageView::Announce, peer).0;
            let b = spec_from_client(a, port, ip).0;
            &&& spec_from_client(a, port, ip).1 == Some(peer)
            &&& spec_from_client(b, port2, ip2).1 == Some(peer)
        }),
{
}

/// The end beside the clients announces itself again after every failed or
/// timed-out receive, whatever sockets it has; control messages from the other
/// end never ask for a socket.
pub proof fn lemma_failed_receive_announces<S>(v: ServerPortsView<S>)
    ensures
        spec_server_side_from_client(v, None) == FromClientDecision::<S>::Announce,
        spec_server_side_from_client(v, Some(MessageView::Announce)) == FromClientDecision::<S>::Ignore,
        spec_server_side_from_client(v, Some(MessageView::Echo)) == FromClientDecision::<S>::Ignore,
{
}


/// Data from the other end for a port that no client datagram has come from
/// is dropped, and a client datagram from another port does not change that.
pub proof fn lemma_unknown_port_dropped<A, I>(
    r: RoutesView<A, I>,
    port: u16,
    other: u16,
    ip: I,
    payload: Seq<u8>,
    peer: A,
)
    requires
        !r.client_ports.contains_key(port),
        other != port,
    ensures
        spec_from_server(r, MessageView::Data(port, payload), peer).1 == ServerReply::<I>::Drop,
        spec_from_server(
            spec_from_client(r, other, ip).0,
            MessageView::Data(port, payload),
            peer,
        ).1 == ServerReply::<I>::Drop,
{
}

} // verus!
