//! Which clients there are, and what is done with each packet that arrives.

use vstd::prelude::*;
use bytes::Bytes;
use crate::net::{IpAddr, SocketAddr};
use crate::server::clients::ClientMap;
use crate::server::connection::{ClientConnection, ClientView, LocalSocketInfo};
use crate::server::packets::{Outgoing, OutgoingQueue};

verus! {

/// The first token that is given to a client's timer.
pub const FIRST_TIMER_TOKEN: usize = 1024;

/// The length of the ids that connections get.
pub const CONN_ID_LEN: usize = 20;

/// `ring::rand::SystemRandom::new`, `ring::rand::SecureRandom::fill`: random
/// bytes, if the system has any. Nothing but their number is stated of them.
#[verifier::external_body]
fn random_bytes(len: usize) -> (bytes: Option<Vec<u8>>)
    ensures
        bytes matches Some(b) ==> b@.len() == len,
{
    let mut bytes: Vec<u8> = vec![0; len];
    let filled = ring::rand::SecureRandom::fill(&ring::rand::SystemRandom::new(), &mut bytes);
    filled.ok().map(|_| bytes)
}

/// A random id for a connection, if the system has random bytes.
pub fn gen_random_cid() -> (cid: Option<Vec<u8>>)
    ensures
        cid matches Some(id) ==> id@.len() == CONN_ID_LEN,
{
    random_bytes(CONN_ID_LEN)
}

/// The limits that are set for each connection.
#[derive(Debug, Clone, Copy, PartialEq, Eq, Structural)]
pub struct QuicLimits {
    pub initial_max_data: u64,
    pub initial_max_stream_data_bidi_remote: u64,
    pub initial_max_stream_data_bidi_local: u64,
    pub initial_max_stream_data_uni: u64,
    pub initial_max_streams_bidi: u64,
    pub initial_max_streams_uni: u64,
    pub dgram_recv_queue_len: usize,
    pub dgram_send_queue_len: usize,
    /// In milliseconds.
    pub max_idle_timeout: u64,
}

pub fn quic_limits() -> (limits: QuicLimits)
    ensures
        limits == (QuicLimits {
            initial_max_data: 65536,
            initial_max_stream_data_bidi_remote: 65536,
            initial_max_stream_data_bidi_local: 65536,
            initial_max_stream_data_uni: 65536,
            initial_max_streams_bidi: 64,
            initial_max_streams_uni: 64,
            dgram_recv_queue_len: 0,
            dgram_send_queue_len: 1048576,
            max_idle_timeout: 10000,
        }),
{
    QuicLimits {
        initial_max_data: 65536,
        initial_max_stream_data_bidi_remote: 65536,
        initial_max_stream_data_bidi_local: 65536,
        initial_max_stream_data_uni: 65536,
        initial_max_streams_bidi: 64,
        initial_max_streams_uni: 64,
        dgram_recv_queue_len: 0,
        dgram_send_queue_len: 1048576,
        max_idle_timeout: 10000,
    }
}

/// How connections to an address are secured.
#[derive(Debug, Clone, Copy, PartialEq, Eq, Structural)]
pub enum TlsMode {
    /// With the certificate and the key that are configured.
    Configured,
    /// With a certificate that is made up for the address.
    SelfSigned,
}

/// A server that others can reach needs a certificate.
#[derive(Debug, Clone, Copy, PartialEq, Eq, Structural)]
pub struct TlsRequired;

pub fn tls_mode(addr: SocketAddr, has_cert: bool, has_key: bool) -> (mode: Result<
    TlsMode,
    TlsRequired,
>)
    ensures
        mode == if has_cert && has_key {
            Ok::<TlsMode, TlsRequired>(TlsMode::Configured)
        } else if addr.ip.spec_requires_tls() {
            Err(TlsRequired)
        } else {
            Ok(TlsMode::SelfSigned)
        },
{
    if has_cert && has_key {
        Ok(TlsMode::Configured)
    } else if addr.ip.requires_tls() {
        Err(TlsRequired)
    } else {
        Ok(TlsMode::SelfSigned)
    }
}

/// What the socket is asked to report along with each packet.
#[derive(Debug, Clone, Copy, PartialEq, Eq, Structural)]
pub struct SocketOptions {
    pub ipv4_packet_info: bool,
    pub ipv6_packet_info: bool,
}

/// A socket that listens on all addresses reports which of them a packet came
/// in on. One for IPv6 may carry packets of both families.
pub fn socket_options(addr: SocketAddr) -> (options: SocketOptions)
    ensures
        options.ipv4_packet_info == addr.ip.spec_is_unspecified(),
        options.ipv6_packet_info == (addr.ip.spec_is_unspecified() && addr.ip is V6),
{
    let unspecified = addr.ip.is_unspecified();
    let is_v6 = match addr.ip {
        IpAddr::V6(_) => true,
        IpAddr::V4(_) => false,
    };
    SocketOptions {
        ipv4_packet_info: unspecified,
        ipv6_packet_info: unspecified && is_v6,
    }
}

/// What is read from the beginning of a packet.
pub struct PacketHeader {
    /// The connection that the packet is for.
    pub dcid: Vec<u8>,
    /// Whether the packet opens a connection.
    pub is_initial: bool,
    pub version_supported: bool,
}

/// What is done with a packet.
#[derive(Debug, Clone, Copy, PartialEq, Eq, Structural)]
pub enum RecvDecision {
    /// It belongs to a client, which is reached at this local address.
    Deliver { local: LocalSocketInfo },
    /// It is dropped.
    Ignore,
    /// The peer is told which versions are supported.
    NegotiateVersion { local: LocalSocketInfo },
    /// It opens a connection.
    Accept { local: LocalSocketInfo },
}

#[derive(Debug, Clone, Copy, PartialEq, Eq, Structural)]
pub enum RecvError {
    InvalidPacket,
    NoLocalAddress,
}

pub struct Server {
    pub clients: ClientMap,
    pub outgoing_packets: OutgoingQueue,
    pub next_timer_token: usize,
    pub max_connections: Option<u32>,
    pub shutting_down: bool,
}

#[verifier::ext_equal]
pub struct ServerView {
    pub clients: Map<Seq<u8>, ClientView>,
    pub outgoing_packets: Seq<Outgoing>,
    pub next_timer_token: usize,
    pub max_connections: Option<u32>,
    pub shutting_down: bool,
}

pub open spec fn client_views(clients: Map<Seq<u8>, ClientConnection>) -> Map<
    Seq<u8>,
    ClientView,
> {
    clients.map_values(|c: ClientConnection| c@)
}

impl View for Server {
    type V = ServerView;

    open spec fn view(&self) -> ServerView {
        ServerView {
            clients: client_views(self.clients@),
            outgoing_packets: self.outgoing_packets.packets@,
            next_timer_token: self.next_timer_token,
            max_connections: self.max_connections,
            shutting_down: self.shutting_down,
        }
    }
}

impl ServerView {
    /// Every client is filed under its connection id, and no two share a timer
    /// token.
    pub open spec fn wf(self) -> bool {
        &&& forall|id: Seq<u8>| #[trigger]
            self.clients.contains_key(id) ==> self.clients[id].conn_id == id
        &&& forall|id: Seq<u8>| #[trigger]
            self.clients.contains_key(id) ==> self.clients[id].timeout_token
                < self.next_timer_token
        &&& forall|a: Seq<u8>, b: Seq<u8>| #[trigger]
            self.clients.contains_key(a) && #[trigger] self.clients.contains_key(b) && a != b
                ==> self.clients[a].timeout_token != self.clients[b].timeout_token
    }

    /// What is done with a packet of a connection that is not known.
    pub open spec fn decide_new(
        self,
        is_initial: bool,
        version_supported: bool,
        to: Option<LocalSocketInfo>,
    ) -> Result<RecvDecision, RecvError> {
        if self.shutting_down || !is_initial {
            Ok(RecvDecision::Ignore)
        } else if self.max_connections is Some && self.clients.dom().len() as u32
            >= self.max_connections->0 {
            Ok(RecvDecision::Ignore)
        } else {
            match to {
                None => Err(RecvError::NoLocalAddress),
                Some(local) => if version_supported {
                    Ok(RecvDecision::Accept { local })
                } else {
                    Ok(RecvDecision::NegotiateVersion { local })
                },
            }
        }
    }
}

impl ServerView {
    /// What is done with a packet, by the connection that it is for.
    pub open spec fn decide(
        self,
        dcid: Seq<u8>,
        is_initial: bool,
        version_supported: bool,
        to: Option<LocalSocketInfo>,
    ) -> Result<RecvDecision, RecvError> {
        if self.clients.contains_key(dcid) {
            Ok(RecvDecision::Deliver { local: self.clients[dcid].local_socket_info })
        } else {
            self.decide_new(is_initial, version_supported, to)
        }
    }

    /// A client was accepted. One with an id that is in use already is not
    /// filed.
    pub open spec fn with_client(
        self,
        conn_id: Seq<u8>,
        remote_addr: SocketAddr,
        local: LocalSocketInfo,
        now: u64,
    ) -> ServerView {
        ServerView {
            next_timer_token: (self.next_timer_token + 1) as usize,
            clients: if self.clients.contains_key(conn_id) {
                self.clients
            } else {
                self.clients.insert(
                    conn_id,
                    ClientView {
                        remote_addr,
                        local_socket_info: local,
                        conn_id,
                        timeout_token: self.next_timer_token,
                        partial_reads: Map::empty(),
                        partial_writes: Map::empty(),
                        in_flight: Map::empty(),
                        last_keepalive: now,
                    },
                )
            },
            ..self
        }
    }
}

/// The clients that are left once those that are closed are gone, and those
/// that drain have lost their workers.
pub open spec fn collected(
    clients: Map<Seq<u8>, ClientView>,
    closed: Set<Seq<u8>>,
    draining: Set<Seq<u8>>,
) -> Map<Seq<u8>, ClientView> {
    Map::new(
        |id: Seq<u8>| clients.contains_key(id) && !closed.contains(id),
        |id: Seq<u8>|
            if draining.contains(id) {
                ClientView { in_flight: Map::empty(), ..clients[id] }
            } else {
                clients[id]
            },
    )
}

impl Server {
    pub fn new(max_connections: Option<u32>) -> (server: Server)
        ensures
            server@ == (ServerView {
                clients: Map::empty(),
                outgoing_packets: Seq::empty(),
                next_timer_token: FIRST_TIMER_TOKEN,
                max_connections,
                shutting_down: false,
            }),
            server@.wf(),
    {
        let server = Server {
            clients: ClientMap::new(),
            outgoing_packets: OutgoingQueue::new(),
            next_timer_token: FIRST_TIMER_TOKEN,
            max_connections,
            shutting_down: false,
        };
        assert(server@.clients =~= Map::empty());
        server
    }

    /// Decides what to do with a packet. Without a header the packet could not
    /// be read. A server that shuts down, or that has as many clients as it is
    /// allowed, takes no new ones.
    pub fn recv(&self, header: Option<PacketHeader>, to: Option<LocalSocketInfo>) -> (decision:
        Result<RecvDecision, RecvError>)
        ensures
            decision == match header {
                None => Err::<RecvDecision, RecvError>(RecvError::InvalidPacket),
                Some(hdr) => self@.decide(hdr.dcid@, hdr.is_initial, hdr.version_supported, to),
            },
    {
        let hdr = match header {
            Some(hdr) => hdr,
            None => {
                return Err(RecvError::InvalidPacket);
            },
        };
        let num_clients: usize = self.clients.len();
        proof {
            assert(self@.clients.dom() =~= self.clients@.dom());
        }
        match self.clients.get(&hdr.dcid) {
            Some(client) => Ok(RecvDecision::Deliver { local: client.local_socket_info }),
            None => {
                if self.shutting_down || !hdr.is_initial {
                    return Ok(RecvDecision::Ignore);
                }
                if let Some(max) = self.max_connections {
                    if num_clients as u32 >= max {
                        return Ok(RecvDecision::Ignore);
                    }
                }
                match to {
                    None => Err(RecvError::NoLocalAddress),
                    Some(local) => if hdr.version_supported {
                        Ok(RecvDecision::Accept { local })
                    } else {
                        Ok(RecvDecision::NegotiateVersion { local })
                    },
                }
            },
        }
    }

    /// Adds a client whose connection was accepted. Returns the token of its
    /// timer, which no other client has.
    pub fn add_client(
        &mut self,
        conn_id: Vec<u8>,
        remote_addr: SocketAddr,
        local: LocalSocketInfo,
        now: u64,
    ) -> (token: usize)
        requires
            old(self)@.wf(),
            old(self)@.next_timer_token < usize::MAX,
        ensures
            final(self)@.wf(),
            token == old(self)@.next_timer_token,
            final(self)@ == old(self)@.with_client(conn_id@, remote_addr, local, now),
    {
        let ghost before = self@;
        let token: usize = self.next_timer_token;
        self.next_timer_token = token + 1;
        let id = conn_id.clone();
        assert(id@ =~= conn_id@);
        let client = ClientConnection::new(remote_addr, local, conn_id, token, now);
        let ghost view = client@;
        self.clients.insert_if_absent(id, client);
        proof {
            if before.clients.contains_key(id@) {
                assert(self@.clients =~= before.clients);
            } else {
                assert(self@.clients =~= before.clients.insert(id@, view));
            }
        }
        token
    }

    /// Lends the client with a connection id, if there is one.
    pub fn client_mut(&mut self, conn_id: &Vec<u8>) -> (found: Option<&mut ClientConnection>)
        ensures
            final(self).outgoing_packets == old(self).outgoing_packets,
            final(self).next_timer_token == old(self).next_timer_token,
            final(self).max_connections == old(self).max_connections,
            final(self).shutting_down == old(self).shutting_down,
            match found {
                Some(client) => old(self).clients@.contains_key(conn_id@) && *client == old(
                    self).clients@[conn_id@] && final(self).clients@ == old(
                    self).clients@.insert(conn_id@, *final(client)),
                None => !old(self).clients@.contains_key(conn_id@) && final(self).clients@ == old(
                    self).clients@,
            },
    {
        self.clients.get_mut(conn_id)
    }

    /// Queues a packet that is not part of a connection.
    pub fn queue_packet(&mut self, buf: Bytes, to: SocketAddr, from: LocalSocketInfo)
        requires
            old(self)@.wf(),
        ensures
            final(self)@.wf(),
            final(self)@ == (ServerView {
                outgoing_packets: old(self)@.outgoing_packets.push(Outgoing { buf, to, from }),
                ..old(self)@
            }),
    {
        self.outgoing_packets.push(Outgoing { buf, to, from });
    }

    /// The client whose timer has a token, if there is one.
    pub fn client_for_token(&self, token: usize) -> (found: Option<Vec<u8>>)
        requires
            self@.wf(),
        ensures
            match found {
                Some(id) => self@.clients.contains_key(id@)
                    && self@.clients[id@].timeout_token == token,
                None => forall|id: Seq<u8>| #[trigger]
                    self@.clients.contains_key(id) ==> self@.clients[id].timeout_token != token,
            },
    {
        let ids = self.clients.ids();
        let ghost views = crate::server::clients::id_views(ids@);
        let mut i: usize = 0;
        while i < ids.len()
            invariant
                i <= ids@.len(),
                views == crate::server::clients::id_views(ids@),
                views.to_set() == self.clients@.dom(),
                forall|j: int|
                    0 <= j < i ==> self@.clients[#[trigger] views[j]].timeout_token != token,
            decreases ids.len() - i,
        {
            assert(views[i as int] == ids@[i as int]@);
            assert(views.contains(views[i as int]));
            assert(views.to_set().contains(views[i as int]));
            if let Some(client) = self.clients.get(&ids[i]) {
                if client.timeout_token == token {
                    let id = ids[i].clone();
                    assert(id@ =~= views[i as int]);
                    return Some(id);
                }
            }
            i += 1;
        }
        proof {
            assert forall|id: Seq<u8>| #[trigger]
                self@.clients.contains_key(id) implies self@.clients[id].timeout_token != token by {
                assert(views.to_set().contains(id));
                let j = views.index_of(id);
                assert(views[j] == id);
            }
        }
        None
    }

    /// Starts to shut down. All clients, which are returned, are to be closed.
    pub fn begin_shutdown(&mut self) -> (ids: Vec<Vec<u8>>)
        requires
            old(self)@.wf(),
        ensures
            final(self)@.wf(),
            final(self)@ == (ServerView { shutting_down: true, ..old(self)@ }),
            crate::server::clients::id_views(ids@).to_set() == old(self)@.clients.dom(),
            crate::server::clients::id_views(ids@).no_duplicates(),
    {
        self.shutting_down = true;
        assert(self@.clients.dom() =~= self.clients@.dom());
        self.clients.ids()
    }

    /// Drops the clients that are closed, and the workers of those that drain.
    /// Returns true if the server is to exit: it shuts down, and no client is
    /// left.
    pub fn collect_clients(&mut self, closed: &Vec<Vec<u8>>, draining: &Vec<Vec<u8>>) -> (exit:
        bool)
        requires
            old(self)@.wf(),
        ensures
            final(self)@.wf(),
            final(self)@ == (ServerView {
                clients: collected(
                    old(self)@.clients,
                    crate::server::clients::id_views(closed@).to_set(),
                    crate::server::clients::id_views(draining@).to_set(),
                ),
                ..old(self)@
            }),
            exit == (old(self)@.shutting_down && final(self)@.clients.dom() == Set::<
                Seq<u8>,
            >::empty()),
    {
        let ghost before = self@;
        let ghost gone = crate::server::clients::id_views(closed@);
        let ghost drained = crate::server::clients::id_views(draining@);
        let mut i: usize = 0;
        proof {
            assert(gone.take(0).to_set() =~= Set::empty());
            assert(drained.take(0).to_set() =~= Set::empty());
            assert(collected(before.clients, Set::empty(), Set::empty()) =~= before.clients);
        }
        while i < closed.len()
            invariant
                i <= closed@.len(),
                gone == crate::server::clients::id_views(closed@),
                self@ == (ServerView {
                    clients: collected(before.clients, gone.take(i as int).to_set(), Set::empty()),
                    ..before
                }),
            decreases closed.len() - i,
        {
            let ghost mid = self@.clients;
            let ghost id = gone[i as int];
            self.clients.remove(&closed[i]);
            proof {
                assert(gone.take(i + 1) =~= gone.take(i as int).push(id));
                gone.take(i as int).lemma_push_to_set_commute(id);
                assert(self@.clients =~= mid.remove(id));
                assert(self@.clients =~= collected(
                    before.clients,
                    gone.take(i + 1).to_set(),
                    Set::empty(),
                ));
            }
            i += 1;
        }
        let ghost all_gone = gone.to_set();
        assert(gone.take(i as int) =~= gone);
        let mut j: usize = 0;
        while j < draining.len()
            invariant
                j <= draining@.len(),
                drained == crate::server::clients::id_views(draining@),
                self@ == (ServerView {
                    clients: collected(before.clients, all_gone, drained.take(j as int).to_set()),
                    ..before
                }),
            decreases draining.len() - j,
        {
            let ghost mid = self@.clients;
            let ghost id = drained[j as int];
            if let Some(client) = self.clients.get_mut(&draining[j]) {
                client.drop_workers();
            }
            proof {
                assert(drained.take(j + 1) =~= drained.take(j as int).push(id));
                drained.take(j as int).lemma_push_to_set_commute(id);
                if mid.contains_key(id) {
                    assert(self@.clients =~= mid.insert(
                        id,
                        ClientView { in_flight: Map::empty(), ..mid[id] },
                    ));
                } else {
                    assert(self@.clients =~= mid);
                }
                assert(self@.clients =~= collected(
                    before.clients,
                    all_gone,
                    drained.take(j + 1).to_set(),
                ));
            }
            j += 1;
        }
        assert(drained.take(j as int) =~= drained);
        assert(self@.clients.dom() =~= self.clients@.dom());
        self.shutting_down && self.clients.len() == 0
    }
}

impl Server {
    /// The clients that messages and datagrams are written to: all but those
    /// that drain, each once.
    pub fn writable_clients(&self, draining: &Vec<Vec<u8>>) -> (ids: Vec<Vec<u8>>)
        requires
            self@.wf(),
        ensures
            crate::server::clients::id_views(ids@).no_duplicates(),
            crate::server::clients::id_views(ids@).to_set() == self@.clients.dom().difference(
                crate::server::clients::id_views(draining@).to_set(),
            ),
    {
        let all = self.clients.ids();
        let ghost views = crate::server::clients::id_views(all@);
        let ghost drained = crate::server::clients::id_views(draining@);
        let mut ids: Vec<Vec<u8>> = Vec::new();
        let mut i: usize = 0;
        while i < all.len()
            invariant
                i <= all@.len(),
                views == crate::server::clients::id_views(all@),
                drained == crate::server::clients::id_views(draining@),
                views.no_duplicates(),
                crate::server::clients::id_views(ids@).no_duplicates(),
                forall|id: Seq<u8>| #[trigger]
                    crate::server::clients::id_views(ids@).contains(id) <==> views.take(
                        i as int,
                    ).contains(id) && !drained.contains(id),
            decreases all.len() - i,
        {
            let ghost id = views[i as int];
            let ghost chosen = crate::server::clients::id_views(ids@);
            proof {
                assert(views.take(i + 1) =~= views.take(i as int).push(id));
                assert(!views.take(i as int).contains(id)) by {
                    if views.take(i as int).contains(id) {
                        let k = views.take(i as int).index_of(id);
                        assert(views[k] == views[i as int]);
                    }
                }
            }
            if !lists(draining, &all[i]) {
                let copy = all[i].clone();
                assert(copy@ =~= id);
                ids.push(copy);
                proof {
                    let longer = crate::server::clients::id_views(ids@);
                    assert(longer =~= chosen.push(id));
                    assert(!chosen.contains(id));
                    assert forall|a: int, b: int|
                        0 <= a < longer.len() && 0 <= b < longer.len() && a != b implies longer[a]
                        != longer[b] by {
                        if a < chosen.len() && b < chosen.len() {
                            assert(chosen[a] != chosen[b]);
                        } else if a < chosen.len() {
                            assert(chosen.contains(chosen[a]));
                        } else {
                            assert(chosen.contains(chosen[b]));
                        }
                    }
                }
            }
            proof {
                assert forall|other: Seq<u8>| #[trigger]
                    crate::server::clients::id_views(ids@).contains(other) <==> views.take(
                        i + 1,
                    ).contains(other) && !drained.contains(other) by {
                    lemma_push_contains(views.take(i as int), id, other);
                    lemma_push_contains(chosen, id, other);
                }
            }
            i += 1;
        }
        proof {
            assert(views.take(i as int) =~= views);
            assert(self@.clients.dom() =~= self.clients@.dom());
            let chosen = crate::server::clients::id_views(ids@);
            assert forall|id: Seq<u8>| chosen.to_set().contains(id) <==> self@.clients.dom().difference(
                drained.to_set(),
            ).contains(id) by {
                assert(chosen.contains(id) <==> views.contains(id) && !drained.contains(id));
                assert(views.to_set().contains(id) <==> views.contains(id));
            }
            assert(chosen.to_set() =~= self@.clients.dom().difference(drained.to_set()));
        }
        ids
    }
}

proof fn lemma_push_contains(list: Seq<Seq<u8>>, id: Seq<u8>, other: Seq<u8>)
    ensures
        list.push(id).contains(other) <==> list.contains(other) || other == id,
{
    let longer = list.push(id);
    if list.contains(other) {
        let k = list.index_of(other);
        assert(longer[k] == other);
    }
    assert(longer[list.len() as int] == id);
}

fn lists(ids: &Vec<Vec<u8>>, id: &Vec<u8>) -> (found: bool)
    ensures
        found == crate::server::clients::id_views(ids@).contains(id@),
{
    let ghost views = crate::server::clients::id_views(ids@);
    let mut i: usize = 0;
    while i < ids.len()
        invariant
            i <= ids@.len(),
            views == crate::server::clients::id_views(ids@),
            forall|j: int| 0 <= j < i ==> #[trigger] views[j] != id@,
        decreases ids.len() - i,
    {
        assert(views[i as int] == ids@[i as int]@);
        if same_bytes(&ids[i], id) {
            return true;
        }
        i += 1;
    }
    false
}

fn same_bytes(a: &Vec<u8>, b: &Vec<u8>) -> (same: bool)
    ensures
        same == (a@ == b@),
{
    if a.len() != b.len() {
        return false;
    }
    let mut i: usize = 0;
    while i < a.len()
        invariant
            i <= a@.len() == b@.len(),
            forall|j: int| 0 <= j < i ==> a@[j] == b@[j],
        decreases a.len() - i,
    {
        if a[i] != b[i] {
            return false;
        }
        i += 1;
    }
    assert(a@ =~= b@);
    true
}

/// The packets of a client that was accepted are delivered to it from then on,
/// also while the server shuts down.
pub proof fn accepted_client_is_reached(
    server: ServerView,
    conn_id: Seq<u8>,
    remote_addr: SocketAddr,
    local: LocalSocketInfo,
    now: u64,
    is_initial: bool,
    version_supported: bool,
    to: Option<LocalSocketInfo>,
)
    requires
        !server.clients.contains_key(conn_id),
    ensures
        server.with_client(conn_id, remote_addr, local, now).decide(
            conn_id,
            is_initial,
            version_supported,
            to,
        ) == Ok::<RecvDecision, RecvError>(RecvDecision::Deliver { local }),
{
}

/// A server that shuts down accepts no connection.
pub proof fn no_accept_while_shutting_down(
    server: ServerView,
    is_initial: bool,
    version_supported: bool,
    to: Option<LocalSocketInfo>,
)
    requires
        server.shutting_down,
    ensures
        server.decide_new(is_initial, version_supported, to) == Ok::<RecvDecision, RecvError>(
            RecvDecision::Ignore,
        ),
{
}

/// Until connection ids are as many as are allowed, the limit turns none away,
/// and from then on it turns away all.
pub proof fn connection_limit_is_kept(
    server: ServerView,
    max: u32,
    version_supported: bool,
    local: LocalSocketInfo,
)
    requires
        !server.shutting_down,
        server.max_connections == Some(max),
        server.clients.dom().len() <= u32::MAX,
    ensures
        server.decide_new(true, version_supported, Some(local)) == Ok::<RecvDecision, RecvError>(
            RecvDecision::Ignore,
        ) <==> server.clients.dom().len() >= max,
{
}

/// A packet of a client that is known is delivered; any other is dropped, unless
/// it opens a connection while there is room and the server does not shut down.
pub proof fn packets_find_their_client(
    server: ServerView,
    dcid: Seq<u8>,
    is_initial: bool,
    version_supported: bool,
    to: Option<LocalSocketInfo>,
)
    requires
        server.clients.dom().len() <= u32::MAX,
    ensures
        ({
            let decision = server.decide(dcid, is_initial, version_supported, to);
            let known = server.clients.contains_key(dcid);
            let room = match server.max_connections {
                Some(max) => server.clients.dom().len() < max,
                None => true,
            };
            let opens = !known && is_initial && !server.shutting_down && room;
            &&& decision matches Ok(RecvDecision::Deliver { local }) ==> known && local
                == server.clients[dcid].local_socket_info
            &&& known ==> (decision matches Ok(RecvDecision::Deliver { .. }))
            &&& decision == Ok::<RecvDecision, RecvError>(RecvDecision::Ignore) <==> !known
                && !opens
            &&& decision matches Ok(RecvDecision::Accept { local }) ==> opens && version_supported
                && to == Some(local)
            &&& decision matches Ok(RecvDecision::NegotiateVersion { local }) ==> opens
                && !version_supported && to == Some(local)
            &&& decision is Err <==> opens && to is None
            &&& opens && to is Some && version_supported ==> (decision matches Ok(
                RecvDecision::Accept { .. },
            ))
        }),
{
}

/// A client that is accepted is known from then on by its id, with its addresses
/// and a timer of its own; all others stay as they were.
pub proof fn accepted_client_is_known(
    server: ServerView,
    conn_id: Seq<u8>,
    remote_addr: SocketAddr,
    local: LocalSocketInfo,
    now: u64,
    other: Seq<u8>,
)
    requires
        server.wf(),
        !server.clients.contains_key(conn_id),
        server.next_timer_token < usize::MAX,
    ensures
        ({
            let after = server.with_client(conn_id, remote_addr, local, now);
            let client = after.clients[conn_id];
            &&& after.wf()
            &&& after.clients.contains_key(conn_id)
            &&& client.remote_addr == remote_addr && client.local_socket_info == local
            &&& client.conn_id == conn_id && client.last_keepalive == now
            &&& client.timeout_token == server.next_timer_token
            &&& after.next_timer_token == server.next_timer_token + 1
            &&& other != conn_id ==> after.clients.contains_key(other)
                == server.clients.contains_key(other) && after.clients[other]
                == server.clients[other]
            &&& other != conn_id && server.clients.contains_key(other)
                ==> after.clients[other].timeout_token != client.timeout_token
        }),
{
}

/// Clients that are closed are gone, those that drain have no workers, and all
/// others are as they were.
pub proof fn closed_clients_are_gone(
    clients: Map<Seq<u8>, ClientView>,
    closed: Set<Seq<u8>>,
    draining: Set<Seq<u8>>,
    id: Seq<u8>,
)
    ensures
        ({
            let after = collected(clients, closed, draining);
            &&& after.contains_key(id) <==> clients.contains_key(id) && !closed.contains(id)
            &&& after.contains_key(id) && !draining.contains(id) ==> after[id] == clients[id]
            &&& after.contains_key(id) && draining.contains(id) ==> after[id].in_flight == Map::<
                u64,
                crate::server::connection::StreamWorker,
            >::empty() && after[id].conn_id == clients[id].conn_id && after[id].partial_writes
                == clients[id].partial_writes
        }),
{
}

/// Connections are secured with the certificate that is configured; only on
/// addresses that nobody else can reach may one be made up.
pub proof fn public_addresses_need_a_certificate(
    addr: SocketAddr,
    has_cert: bool,
    has_key: bool,
    mode: Result<TlsMode, TlsRequired>,
)
    requires
        call_ensures(tls_mode, (addr, has_cert, has_key), mode),
    ensures
        mode == Ok::<TlsMode, TlsRequired>(TlsMode::Configured) <==> has_cert && has_key,
        mode is Err <==> !(has_cert && has_key) && addr.ip.spec_requires_tls(),
        mode == Ok::<TlsMode, TlsRequired>(TlsMode::SelfSigned) ==> !addr.ip.spec_requires_tls(),
{
}

/// Where a packet came in is reported exactly if the socket listens everywhere:
/// for IPv4 always, and for IPv6 on sockets of that family.
pub proof fn wildcard_sockets_report(addr: SocketAddr, options: SocketOptions)
    requires
        call_ensures(socket_options, (addr,), options),
    ensures
        options.ipv4_packet_info <==> addr.ip.spec_is_unspecified(),
        options.ipv6_packet_info <==> addr.ip.spec_is_unspecified() && addr.ip is V6,
{
}

} // verus!
