//! One client: its streams, and the parts of messages that are still in
//! transit.

use std::collections::BTreeMap;
use vstd::prelude::*;
use bytes::Bytes;
use crate::bytes_ext::{bytes_clone, bytes_len, bytes_split_to};
use crate::net::{IpAddr, SocketAddr};
use crate::server::protocol::{server_error, ErrorCode, ErrorMessage, ServerError};

verus! {

broadcast use vstd::std_specs::btree::group_btree_axioms;

/// How often a client with open streams is pinged, in nanoseconds.
pub const KEEPALIVE_PERIOD: u64 = 1_000_000_000;

/// The local side of a connection, as the socket reported it.
#[derive(Debug, Clone, Copy, PartialEq, Eq, Structural)]
pub enum LocalSocketInfo {
    V4 { interface: i32, spec_dst: u32, addr: u32, port: u16 },
    V6 { addr: u128, interface: u32, port: u16 },
}

/// What the socket reports along with a packet.
#[derive(Debug, Clone, Copy, PartialEq, Eq, Structural)]
pub enum PacketInfo {
    /// The interface and the address that an IPv4 packet came in on.
    V4 { interface: i32, spec_dst: u32, addr: u32 },
    /// The interface and the address that an IPv6 packet came in on.
    V6 { addr: u128, interface: u32 },
    /// Anything else.
    Other,
}

/// The local side that the last address among the reports names, if any does.
/// The port is the one that the server listens on.
pub open spec fn last_local(infos: Seq<PacketInfo>, port: u16) -> Option<LocalSocketInfo>
    decreases infos.len(),
{
    if infos.len() == 0 {
        None
    } else {
        match infos.last() {
            PacketInfo::V4 { interface, spec_dst, addr } => Some(
                LocalSocketInfo::V4 { interface, spec_dst, addr, port },
            ),
            PacketInfo::V6 { addr, interface } => Some(
                LocalSocketInfo::V6 { addr, interface, port },
            ),
            PacketInfo::Other => last_local(infos.drop_last(), port),
        }
    }
}

impl LocalSocketInfo {
    /// Finds the local side of a packet in what the socket reported.
    pub fn find(infos: &Vec<PacketInfo>, port: u16) -> (local: Option<LocalSocketInfo>)
        ensures
            local == last_local(infos@, port),
    {
        let mut local: Option<LocalSocketInfo> = None;
        let mut i: usize = 0;
        while i < infos.len()
            invariant
                i <= infos@.len(),
                local == last_local(infos@.take(i as int), port),
            decreases infos.len() - i,
        {
            assert(infos@.take(i + 1).drop_last() =~= infos@.take(i as int));
            match infos[i] {
                PacketInfo::V4 { interface, spec_dst, addr } => {
                    local = Some(LocalSocketInfo::V4 { interface, spec_dst, addr, port });
                },
                PacketInfo::V6 { addr, interface } => {
                    local = Some(LocalSocketInfo::V6 { addr, interface, port });
                },
                PacketInfo::Other => {},
            }
            i += 1;
        }
        assert(infos@.take(i as int) =~= infos@);
        local
    }

    pub open spec fn spec_socket_addr(self) -> SocketAddr {
        match self {
            LocalSocketInfo::V4 { addr, port, .. } => SocketAddr { ip: IpAddr::V4(addr), port },
            LocalSocketInfo::V6 { addr, port, .. } => SocketAddr { ip: IpAddr::V6(addr), port },
        }
    }

    pub fn socket_addr(self) -> (addr: SocketAddr)
        ensures
            addr == self.spec_socket_addr(),
    {
        match self {
            LocalSocketInfo::V4 { addr, port, .. } => SocketAddr { ip: IpAddr::V4(addr), port },
            LocalSocketInfo::V6 { addr, port, .. } => SocketAddr { ip: IpAddr::V6(addr), port },
        }
    }
}

/// Something that is done to a stream.
pub enum StreamAction {
    /// Writes a message. With `fin`, it is the last on the stream.
    Write { sid: u64, message: ErrorMessage, fin: bool },
    /// Ends the stream without a message.
    Finish { sid: u64 },
    /// Stops reading, with a code for the peer, or with zero.
    ShutdownRead { sid: u64, code: Option<ErrorCode> },
}

/// The worker of a stream.
#[derive(Debug, Clone, Copy, PartialEq, Eq, Structural)]
pub struct StreamWorker {
    /// Whether messages of the peer are still handed to it.
    pub accepts_messages: bool,
}

pub struct ClientConnection {
    pub remote_addr: SocketAddr,
    pub local_socket_info: LocalSocketInfo,
    pub conn_id: Vec<u8>,
    pub timeout_token: usize,
    /// The beginning of a message, by stream.
    pub partial_reads: BTreeMap<u64, Vec<u8>>,
    /// The rest of a message, by stream.
    pub partial_writes: BTreeMap<u64, Bytes>,
    pub in_flight: BTreeMap<u64, StreamWorker>,
    /// When the client was last pinged, in nanoseconds.
    pub last_keepalive: u64,
}

#[verifier::ext_equal]
pub struct ClientView {
    pub remote_addr: SocketAddr,
    pub local_socket_info: LocalSocketInfo,
    pub conn_id: Seq<u8>,
    pub timeout_token: usize,
    pub partial_reads: Map<u64, Seq<u8>>,
    pub partial_writes: Map<u64, Seq<u8>>,
    pub in_flight: Map<u64, StreamWorker>,
    pub last_keepalive: u64,
}

impl View for ClientConnection {
    type V = ClientView;

    open spec fn view(&self) -> ClientView {
        ClientView {
            remote_addr: self.remote_addr,
            local_socket_info: self.local_socket_info,
            conn_id: self.conn_id@,
            timeout_token: self.timeout_token,
            partial_reads: self.partial_reads@.map_values(|v: Vec<u8>| v@),
            partial_writes: self.partial_writes@.map_values(
                |b: Bytes| crate::bytes_ext::contents(b),
            ),
            in_flight: self.in_flight@,
            last_keepalive: self.last_keepalive,
        }
    }
}

/// What became of bytes that were handed to a stream.
#[derive(Debug, Clone, Copy, PartialEq, Eq, Structural)]
pub enum SendResult {
    /// This many were taken.
    Written(usize),
    /// None were taken, because the stream has no capacity.
    Blocked,
    /// The stream cannot be written to.
    Failed,
}

/// A stream that cannot be written to.
#[derive(Debug, Clone, Copy, PartialEq, Eq, Structural)]
pub struct StreamError;

/// What a decoder makes of the bytes at the beginning of a buffer.
#[derive(Debug, Clone, Copy, PartialEq, Eq, Structural)]
pub enum Decoded {
    /// A message, of this many bytes.
    Message { len: usize },
    /// A message of an unknown type, of this many bytes.
    UnknownType { len: usize },
    /// The message is not complete.
    ShortBuffer,
    /// Anything else.
    Invalid,
}

/// What is done about the outcome of a decoder.
#[derive(Debug, Clone, Copy, PartialEq, Eq, Structural)]
pub enum ReadStep {
    /// The message is kept, and the rest of the buffer is decoded.
    Keep,
    /// The message is skipped, and the rest of the buffer is decoded.
    Skip,
    /// The rest of the buffer waits for more.
    Wait,
    /// The stream is broken.
    Fail,
}

/// Why nothing more is read from a stream.
pub enum ReadFailure {
    /// The peer does not keep to the protocol, with what is wrong.
    Protocol(String),
    /// Anything else.
    Other,
}

impl ReadFailure {
    /// What the peer is told. Only a peer that broke the protocol learns more.
    pub fn into_error(self) -> (error: ServerError)
        ensures
            error@ == match self {
                ReadFailure::Protocol(text) => crate::server::protocol::ServerErrorView(
                    ErrorCode::ErrorProtocol,
                    Some(text@),
                ),
                ReadFailure::Other => crate::server::protocol::ServerErrorView(
                    ErrorCode::ErrorServer,
                    Some("Internal server error"@),
                ),
            },
    {
        match self {
            ReadFailure::Protocol(text) => ServerError(ErrorCode::ErrorProtocol, Some(text)),
            ReadFailure::Other => server_error(ErrorCode::ErrorServer, "Internal server error"),
        }
    }
}

/// How writing to a stream begins.
pub enum WriteStart {
    /// No worker has the stream.
    Skip,
    /// The rest of a message goes first.
    Flush(Bytes),
    /// The messages of the worker follow.
    Ready,
}

/// What came of looking for a datagram, and of sending it.
#[derive(Debug, Clone, Copy, PartialEq, Eq, Structural)]
pub enum DgramEvent {
    QueueFull,
    NothingToSend,
    Sent,
    Failed,
}

/// What is done next about the datagrams of a client.
#[derive(Debug, Clone, Copy, PartialEq, Eq, Structural)]
pub enum DgramStep {
    Next,
    /// The rest is sent another time.
    Stop,
    /// The connection is closed, for this reason.
    Close(ErrorCode),
}

/// Goes on sending datagrams until the queue is full or nothing is left. A
/// client that one cannot be sent to is disconnected.
pub fn dgram_step(event: DgramEvent) -> (step: DgramStep)
    ensures
        step == match event {
            DgramEvent::QueueFull => DgramStep::Stop,
            DgramEvent::NothingToSend => DgramStep::Stop,
            DgramEvent::Sent => DgramStep::Next,
            DgramEvent::Failed => DgramStep::Close(ErrorCode::ErrorProtocol),
        },
{
    match event {
        DgramEvent::QueueFull => DgramStep::Stop,
        DgramEvent::NothingToSend => DgramStep::Stop,
        DgramEvent::Sent => DgramStep::Next,
        DgramEvent::Failed => DgramStep::Close(ErrorCode::ErrorProtocol),
    }
}

/// What there is to decode of a stream, and the connection that is left.
pub open spec fn resume_read(client: ClientView, sid: u64, received: Seq<u8>) -> (
    Seq<u8>,
    ClientView,
) {
    (
        if client.partial_reads.contains_key(sid) {
            client.partial_reads[sid] + received
        } else {
            received
        },
        ClientView { partial_reads: client.partial_reads.remove(sid), ..client },
    )
}

/// The connection, with the beginning of a message kept for later.
pub open spec fn keep_partial(client: ClientView, sid: u64, rest: Seq<u8>) -> ClientView {
    ClientView { partial_reads: client.partial_reads.insert(sid, rest), ..client }
}

/// What follows from handing a message to a stream.
pub open spec fn after_write(
    client: ClientView,
    sid: u64,
    data: Seq<u8>,
    result: SendResult,
) -> (Result<bool, StreamError>, ClientView) {
    match result {
        SendResult::Failed => (Err(StreamError), client),
        SendResult::Blocked => (
            Ok(false),
            ClientView { partial_writes: client.partial_writes.insert(sid, data), ..client },
        ),
        SendResult::Written(n) => if n == data.len() {
            (Ok(true), client)
        } else {
            (
                Ok(false),
                ClientView {
                    partial_writes: client.partial_writes.insert(sid, data.skip(n as int)),
                    ..client
                },
            )
        },
    }
}

/// What follows from handing the rest of a message to a stream.
pub open spec fn after_flush(client: ClientView, sid: u64, result: SendResult) -> (
    Result<bool, StreamError>,
    ClientView,
) {
    let rest = client.partial_writes[sid];
    match result {
        SendResult::Failed => (Err(StreamError), client),
        SendResult::Blocked => (Ok(false), client),
        SendResult::Written(n) => (
            Ok(n == rest.len()),
            ClientView {
                partial_writes: if n == rest.len() {
                    client.partial_writes.remove(sid)
                } else {
                    client.partial_writes.insert(sid, rest.skip(n as int))
                },
                ..client
            },
        ),
    }
}

/// The bytes of a stream that are being decoded.
pub struct ReadBuffer {
    pub data: Vec<u8>,
    pub off: usize,
}

impl ReadBuffer {
    /// The bytes that are not decoded yet.
    pub open spec fn rest(self) -> Seq<u8> {
        self.data@.skip(self.off as int)
    }

    pub open spec fn wf(self) -> bool {
        self.off <= self.data@.len()
    }

    pub fn is_empty(&self) -> (empty: bool)
        requires
            self.wf(),
        ensures
            empty == (self.rest().len() == 0),
    {
        self.off == self.data.len()
    }

    /// A copy of the bytes that are not decoded yet.
    pub fn remaining(&self) -> (bytes: Vec<u8>)
        requires
            self.wf(),
        ensures
            bytes@ == self.rest(),
    {
        let mut bytes: Vec<u8> = Vec::new();
        let mut i: usize = self.off;
        while i < self.data.len()
            invariant
                self.off <= i <= self.data@.len(),
                bytes@ =~= self.data@.subrange(self.off as int, i as int),
            decreases self.data.len() - i,
        {
            bytes.push(self.data[i]);
            i += 1;
        }
        assert(bytes@ =~= self.rest());
        bytes
    }
}

impl ClientConnection {
    /// A connection without streams.
    pub fn new(
        remote_addr: SocketAddr,
        local_socket_info: LocalSocketInfo,
        conn_id: Vec<u8>,
        timeout_token: usize,
        now: u64,
    ) -> (client: ClientConnection)
        ensures
            client@ == (ClientView {
                remote_addr,
                local_socket_info,
                conn_id: conn_id@,
                timeout_token,
                partial_reads: Map::empty(),
                partial_writes: Map::empty(),
                in_flight: Map::empty(),
                last_keepalive: now,
            }),
    {
        let client = ClientConnection {
            remote_addr,
            local_socket_info,
            conn_id,
            timeout_token,
            partial_reads: BTreeMap::new(),
            partial_writes: BTreeMap::new(),
            in_flight: BTreeMap::new(),
            last_keepalive: now,
        };
        assert(client@.partial_reads =~= Map::empty());
        assert(client@.partial_writes =~= Map::empty());
        client
    }

    /// Starts to decode what a stream received, after what was left from
    /// before.
    pub fn begin_read(&mut self, sid: u64, received: Vec<u8>) -> (buffer: ReadBuffer)
        ensures
            buffer.wf(),
            (buffer.rest(), final(self)@) == resume_read(old(self)@, sid, received@),
    {
        let ghost before = self@;
        let mut received = received;
        let ghost all = received@;
        let data = match self.partial_reads.remove(&sid) {
            Some(mut partial) => {
                let ghost head = partial@;
                partial.append(&mut received);
                assert(partial@ =~= head + all);
                partial
            },
            None => received,
        };
        let buffer = ReadBuffer { data, off: 0 };
        proof {
            assert(self@.partial_reads =~= before.partial_reads.remove(sid));
            assert(self@ =~= ClientView {
                partial_reads: before.partial_reads.remove(sid),
                ..before
            });
            assert(buffer.rest() =~= buffer.data@);
        }
        buffer
    }

    /// Acts on what the decoder made of the rest of a buffer. A message of an
    /// unknown type is ignored; the beginning of one is kept for later.
    pub fn read_step(&mut self, sid: u64, buffer: &mut ReadBuffer, decoded: Decoded) -> (step:
        ReadStep)
        requires
            old(buffer).wf(),
            match decoded {
                Decoded::Message { len } => len <= old(buffer).rest().len(),
                Decoded::UnknownType { len } => len <= old(buffer).rest().len(),
                _ => true,
            },
        ensures
            final(buffer).wf(),
            match decoded {
                Decoded::Message { len } => {
                    &&& step == ReadStep::Keep
                    &&& final(buffer).rest() == old(buffer).rest().skip(len as int)
                    &&& final(self)@ == old(self)@
                },
                Decoded::UnknownType { len } => {
                    &&& step == ReadStep::Skip
                    &&& final(buffer).rest() == old(buffer).rest().skip(len as int)
                    &&& final(self)@ == old(self)@
                },
                Decoded::ShortBuffer => {
                    &&& step == ReadStep::Wait
                    &&& final(buffer).rest() == Seq::<u8>::empty()
                    &&& final(self)@ == keep_partial(old(self)@, sid, old(buffer).rest())
                },
                Decoded::Invalid => {
                    &&& step == ReadStep::Fail
                    &&& final(buffer).rest() == old(buffer).rest()
                    &&& final(self)@ == old(self)@
                },
            },
    {
        let ghost before = self@;
        let total: usize = buffer.data.len();
        assert(buffer.rest().len() == total - buffer.off);
        match decoded {
            Decoded::Message { len } => {
                buffer.off = buffer.off + len;
                assert(buffer.rest() =~= old(buffer).rest().skip(len as int));
                ReadStep::Keep
            },
            Decoded::UnknownType { len } => {
                buffer.off = buffer.off + len;
                assert(buffer.rest() =~= old(buffer).rest().skip(len as int));
                ReadStep::Skip
            },
            Decoded::ShortBuffer => {
                let rest = buffer.remaining();
                let ghost kept = rest@;
                self.partial_reads.insert(sid, rest);
                buffer.off = total;
                proof {
                    assert(buffer.rest() =~= Seq::empty());
                    assert(self@.partial_reads =~= before.partial_reads.insert(sid, kept));
                    assert(self@ =~= ClientView {
                        partial_reads: before.partial_reads.insert(sid, kept),
                        ..before
                    });
                }
                ReadStep::Wait
            },
            Decoded::Invalid => ReadStep::Fail,
        }
    }

    /// Records what became of a message that was handed to a stream. Returns
    /// false if the stream is full; the rest of the message is then kept.
    pub fn message_written(&mut self, sid: u64, data: Bytes, result: SendResult) -> (outcome:
        Result<bool, StreamError>)
        requires
            result matches SendResult::Written(n) ==> n <= crate::bytes_ext::contents(data).len(),
            result != SendResult::Failed && result != SendResult::Written(
                crate::bytes_ext::contents(data).len() as usize,
            ) ==> !old(self)@.partial_writes.contains_key(sid),
        ensures
            (outcome, final(self)@) == after_write(
                old(self)@,
                sid,
                crate::bytes_ext::contents(data),
                result,
            ),
    {
        let ghost before = self@;
        let len: usize = bytes_len(&data);
        match result {
            SendResult::Failed => Err(StreamError),
            SendResult::Blocked => {
                self.partial_writes.insert(sid, data);
                proof {
                    let all = crate::bytes_ext::contents(data);
                    assert(self@.partial_writes =~= before.partial_writes.insert(sid, all));
                    assert(self@ =~= ClientView {
                        partial_writes: before.partial_writes.insert(sid, all),
                        ..before
                    });
                }
                Ok(false)
            },
            SendResult::Written(n) => if n == len {
                Ok(true)
            } else {
                let mut rest = data;
                let _sent = bytes_split_to(&mut rest, n);
                let ghost kept = crate::bytes_ext::contents(rest);
                self.partial_writes.insert(sid, rest);
                proof {
                    assert(self@.partial_writes =~= before.partial_writes.insert(sid, kept));
                    assert(self@ =~= ClientView {
                        partial_writes: before.partial_writes.insert(sid, kept),
                        ..before
                    });
                }
                Ok(false)
            },
        }
    }

    /// The rest of a message that a stream could not take before.
    pub fn pending_write(&self, sid: u64) -> (pending: Option<Bytes>)
        ensures
            match pending {
                Some(data) => self@.partial_writes.contains_key(sid)
                    && crate::bytes_ext::contents(data) == self@.partial_writes[sid],
                None => !self@.partial_writes.contains_key(sid),
            },
    {
        match self.partial_writes.get(&sid) {
            Some(data) => Some(bytes_clone(data)),
            None => None,
        }
    }

    /// Decides how writing to a stream begins: what is left of a message goes
    /// before the next one.
    pub fn begin_write(&self, sid: u64) -> (start: WriteStart)
        ensures
            match start {
                WriteStart::Skip => !self@.in_flight.contains_key(sid),
                WriteStart::Flush(data) => {
                    &&& self@.in_flight.contains_key(sid)
                    &&& self@.partial_writes.contains_key(sid)
                    &&& crate::bytes_ext::contents(data) == self@.partial_writes[sid]
                },
                WriteStart::Ready => self@.in_flight.contains_key(sid)
                    && !self@.partial_writes.contains_key(sid),
            },
    {
        if !self.in_flight.contains_key(&sid) {
            return WriteStart::Skip;
        }
        match self.pending_write(sid) {
            Some(data) => WriteStart::Flush(data),
            None => WriteStart::Ready,
        }
    }

    /// Records what became of the rest of a message. Returns true once nothing
    /// is left of it.
    pub fn partial_flushed(&mut self, sid: u64, result: SendResult) -> (outcome: Result<
        bool,
        StreamError,
    >)
        requires
            old(self)@.partial_writes.contains_key(sid),
            result matches SendResult::Written(n) ==> n <= old(self)@.partial_writes[sid].len(),
        ensures
            (outcome, final(self)@) == after_flush(old(self)@, sid, result),
    {
        let ghost before = self@;
        match result {
            SendResult::Failed => Err(StreamError),
            SendResult::Blocked => Ok(false),
            SendResult::Written(n) => match self.partial_writes.remove(&sid) {
                Some(mut data) => {
                    if n == bytes_len(&data) {
                        proof {
                            assert(self@.partial_writes =~= before.partial_writes.remove(sid));
                            assert(self@ =~= ClientView {
                                partial_writes: before.partial_writes.remove(sid),
                                ..before
                            });
                        }
                        Ok(true)
                    } else {
                        let _sent = bytes_split_to(&mut data, n);
                        let ghost kept = crate::bytes_ext::contents(data);
                        self.partial_writes.insert(sid, data);
                        proof {
                            assert(self@.partial_writes =~= before.partial_writes.insert(
                                sid,
                                kept,
                            ));
                            assert(self@ =~= ClientView {
                                partial_writes: before.partial_writes.insert(sid, kept),
                                ..before
                            });
                        }
                        Ok(false)
                    }
                },
                None => Ok(true),
            },
        }
    }

    /// Whether the client is to be pinged now. Clients without streams are
    /// not: they are allowed to time out.
    pub fn keepalive_due(&mut self, now: u64) -> (due: bool)
        ensures
            (due, final(self)@) == after_keepalive(old(self)@, now),
    {
        let since: u64 = if now < self.last_keepalive {
            0
        } else {
            now - self.last_keepalive
        };
        if self.in_flight.is_empty() || since < KEEPALIVE_PERIOD {
            return false;
        }
        self.last_keepalive = now;
        true
    }
}

/// Whether a client is pinged, and the connection afterwards.
pub open spec fn after_keepalive(client: ClientView, now: u64) -> (bool, ClientView) {
    let due = client.in_flight.dom().len() > 0 && now - client.last_keepalive
        >= KEEPALIVE_PERIOD;
    (
        due,
        ClientView {
            last_keepalive: if due {
                now
            } else {
                client.last_keepalive
            },
            ..client
        },
    )
}

/// What is done with the messages of a stream.
#[derive(Debug, Clone, Copy, PartialEq, Eq, Structural)]
pub enum StreamDecision {
    /// There is no worker, and nothing for one to do.
    Skip,
    /// The worker gets the messages.
    Forward,
    /// A worker is started, with room for datagrams of this size, and gets the
    /// messages.
    Spawn { max_dgram_len: usize },
    /// The client cannot receive datagrams.
    NoDatagrams,
}

/// What is known of a stream with a worker.
#[derive(Debug, Clone, Copy, PartialEq, Eq, Structural)]
pub struct StreamStatus {
    pub sid: u64,
    /// The peer will send no more.
    pub peer_finished: bool,
    /// The worker is done, or gone.
    pub worker_done: bool,
    /// No message of the worker is waiting.
    pub outgoing_empty: bool,
}

/// The workers, once those of streams that the peer finished accept no more
/// messages.
pub open spec fn hung_up(
    workers: Map<u64, StreamWorker>,
    statuses: Seq<StreamStatus>,
) -> Map<u64, StreamWorker>
    decreases statuses.len(),
{
    if statuses.len() == 0 {
        workers
    } else {
        let rest = hung_up(workers, statuses.drop_last());
        let last = statuses.last();
        if last.peer_finished && rest.contains_key(last.sid) {
            rest.insert(last.sid, StreamWorker { accepts_messages: false })
        } else {
            rest
        }
    }
}

/// A stream is closed once its worker is done and all it sent is written.
pub open spec fn closable(status: StreamStatus, partial_writes: Map<u64, Seq<u8>>) -> bool {
    status.worker_done && status.outgoing_empty && !partial_writes.contains_key(status.sid)
}

/// The streams to close, in order.
pub open spec fn to_close(
    statuses: Seq<StreamStatus>,
    partial_writes: Map<u64, Seq<u8>>,
) -> Seq<u64>
    decreases statuses.len(),
{
    if statuses.len() == 0 {
        Seq::empty()
    } else {
        let rest = to_close(statuses.drop_last(), partial_writes);
        if closable(statuses.last(), partial_writes) {
            rest.push(statuses.last().sid)
        } else {
            rest
        }
    }
}

/// What is done with what was read from a stream, and the connection
/// afterwards.
pub open spec fn after_read(
    client: ClientView,
    sid: u64,
    has_messages: bool,
    fin: bool,
    max_dgram_len: Option<usize>,
) -> (StreamDecision, ClientView) {
    let decision = if client.in_flight.contains_key(sid) {
        StreamDecision::Forward
    } else if !has_messages {
        StreamDecision::Skip
    } else {
        match max_dgram_len {
            Some(max_dgram_len) => StreamDecision::Spawn { max_dgram_len },
            None => StreamDecision::NoDatagrams,
        }
    };
    (
        decision,
        if decision is Forward || decision is Spawn {
            ClientView {
                in_flight: client.in_flight.insert(sid, StreamWorker { accepts_messages: !fin }),
                ..client
            }
        } else {
            client
        },
    )
}

impl ClientConnection {
    /// Decides what to do with what was read from a stream. Once the peer has
    /// finished, the worker gets no more messages.
    pub fn stream_read(
        &mut self,
        sid: u64,
        has_messages: bool,
        fin: bool,
        max_dgram_len: Option<usize>,
    ) -> (decision: StreamDecision)
        requires
            old(self)@.in_flight.contains_key(sid) ==> old(self)@.in_flight[sid].accepts_messages,
        ensures
            (decision, final(self)@) == after_read(
                old(self)@,
                sid,
                has_messages,
                fin,
                max_dgram_len,
            ),
    {
        let ghost before = self@;
        let decision = if self.in_flight.contains_key(&sid) {
            StreamDecision::Forward
        } else if !has_messages {
            return StreamDecision::Skip;
        } else {
            match max_dgram_len {
                Some(max_dgram_len) => StreamDecision::Spawn { max_dgram_len },
                None => {
                    return StreamDecision::NoDatagrams;
                },
            }
        };
        self.in_flight.insert(sid, StreamWorker { accepts_messages: !fin });
        assert(self@ =~= ClientView {
            in_flight: before.in_flight.insert(sid, StreamWorker { accepts_messages: !fin }),
            ..before
        });
        decision
    }

    /// Lets workers know that their peers hung up, and removes the streams
    /// whose workers are finished. Returns those streams, which are to be
    /// closed, each as [`ClientConnection::close_stream`] says.
    pub fn reap_streams(&mut self, statuses: &Vec<StreamStatus>) -> (closed: Vec<u64>)
        ensures
            closed@ == to_close(statuses@, old(self)@.partial_writes),
            final(self)@ == (ClientView {
                in_flight: hung_up(old(self)@.in_flight, statuses@).remove_keys(closed@.to_set()),
                ..old(self)@
            }),
    {
        let ghost before = self@;
        let mut closed: Vec<u64> = Vec::new();
        let mut i: usize = 0;
        while i < statuses.len()
            invariant
                i <= statuses.len(),
                closed@ == to_close(statuses@.take(i as int), before.partial_writes),
                self@ == (ClientView {
                    in_flight: hung_up(before.in_flight, statuses@.take(i as int)),
                    ..before
                }),
            decreases statuses.len() - i,
        {
            let status: StreamStatus = statuses[i];
            let ghost workers = self@.in_flight;
            proof {
                assert(statuses@.take(i + 1).drop_last() =~= statuses@.take(i as int));
            }
            if status.peer_finished && self.in_flight.contains_key(&status.sid) {
                self.in_flight.insert(status.sid, StreamWorker { accepts_messages: false });
            }
            assert(self@ =~= ClientView {
                in_flight: hung_up(before.in_flight, statuses@.take(i + 1)),
                ..before
            });
            if status.worker_done && status.outgoing_empty && !self.partial_writes.contains_key(
                &status.sid,
            ) {
                closed.push(status.sid);
            }
            i += 1;
        }
        assert(statuses@.take(i as int) =~= statuses@);
        let ghost workers = self@.in_flight;
        let mut j: usize = 0;
        proof {
            assert(closed@.take(0).to_set() =~= Set::empty());
            assert(workers.remove_keys(Set::empty()) =~= workers);
        }
        while j < closed.len()
            invariant
                j <= closed.len(),
                self@ == (ClientView {
                    in_flight: workers.remove_keys(closed@.take(j as int).to_set()),
                    ..before
                }),
            decreases closed.len() - j,
        {
            let sid: u64 = closed[j];
            self.in_flight.remove(&sid);
            proof {
                assert(closed@.take(j + 1) =~= closed@.take(j as int).push(sid));
                closed@.take(j as int).lemma_push_to_set_commute(sid);
                assert(workers.remove_keys(closed@.take(j as int).to_set()).remove(sid)
                    =~= workers.remove_keys(closed@.take(j + 1).to_set()));
                assert(self@ =~= ClientView {
                    in_flight: workers.remove_keys(closed@.take(j + 1).to_set()),
                    ..before
                });
            }
            j += 1;
        }
        assert(closed@.take(j as int) =~= closed@);
        closed
    }

    /// Drops what is kept of streams that are finished.
    pub fn forget_finished(&mut self, finished: &Vec<u64>)
        ensures
            final(self)@ == (ClientView {
                partial_reads: old(self)@.partial_reads.remove_keys(finished@.to_set()),
                partial_writes: old(self)@.partial_writes.remove_keys(finished@.to_set()),
                ..old(self)@
            }),
    {
        let ghost before = self@;
        let mut i: usize = 0;
        proof {
            assert(finished@.take(0).to_set() =~= Set::empty());
            assert(before.partial_reads.remove_keys(Set::empty()) =~= before.partial_reads);
            assert(before.partial_writes.remove_keys(Set::empty()) =~= before.partial_writes);
        }
        while i < finished.len()
            invariant
                i <= finished.len(),
                self@ == (ClientView {
                    partial_reads: before.partial_reads.remove_keys(
                        finished@.take(i as int).to_set(),
                    ),
                    partial_writes: before.partial_writes.remove_keys(
                        finished@.take(i as int).to_set(),
                    ),
                    ..before
                }),
            decreases finished.len() - i,
        {
            let sid: u64 = finished[i];
            let ghost mid = self@;
            self.partial_reads.remove(&sid);
            self.partial_writes.remove(&sid);
            proof {
                assert(finished@.take(i + 1) =~= finished@.take(i as int).push(sid));
                finished@.take(i as int).lemma_push_to_set_commute(sid);
                assert(self@.partial_reads =~= mid.partial_reads.remove(sid));
                assert(self@.partial_writes =~= mid.partial_writes.remove(sid));
                assert(self@.partial_reads =~= before.partial_reads.remove_keys(
                    finished@.take(i + 1).to_set(),
                ));
                assert(self@.partial_writes =~= before.partial_writes.remove_keys(
                    finished@.take(i + 1).to_set(),
                ));
            }
            i += 1;
        }
        assert(finished@.take(i as int) =~= finished@);
    }

    /// Gives up on a stream: its worker is dropped. Returns what is done to the
    /// stream, in order: the peer gets an error message, which is the last on
    /// the stream, and nothing more is read.
    pub fn err_stream(&mut self, sid: u64, error: ServerError) -> (actions: Vec<StreamAction>)
        ensures
            final(self)@ == (ClientView {
                in_flight: old(self)@.in_flight.remove(sid),
                ..old(self)@
            }),
            actions@.len() == 2,
            actions@[0] is Write,
            actions@[0]->Write_sid == sid,
            actions@[0]->fin,
            actions@[0]->message.err_code == error@.0,
            actions@[0]->message.error_text@ == match error@.1 {
                Some(text) => text,
                None => Seq::empty(),
            },
            actions@[1] == (StreamAction::ShutdownRead { sid, code: Some(error@.0) }),
    {
        let ghost before = self@;
        self.in_flight.remove(&sid);
        assert(self@ =~= ClientView { in_flight: before.in_flight.remove(sid), ..before });
        let message = error.into_message();
        let code = message.err_code;
        let mut actions: Vec<StreamAction> = Vec::new();
        actions.push(StreamAction::Write { sid, message, fin: true });
        actions.push(StreamAction::ShutdownRead { sid, code: Some(code) });
        actions
    }

    /// How a stream is closed whose worker is finished: the peer is told that
    /// there is nothing more, and nothing more is read.
    pub fn close_stream(sid: u64) -> (actions: Vec<StreamAction>)
        ensures
            actions@ == seq![
                StreamAction::Finish { sid },
                StreamAction::ShutdownRead { sid, code: None },
            ],
    {
        let mut actions: Vec<StreamAction> = Vec::new();
        actions.push(StreamAction::Finish { sid });
        actions.push(StreamAction::ShutdownRead { sid, code: None });
        assert(actions@ =~= seq![
            StreamAction::Finish { sid },
            StreamAction::ShutdownRead { sid, code: None },
        ]);
        actions
    }

    /// Drops all workers, which lets them know that they can exit.
    pub fn drop_workers(&mut self)
        ensures
            final(self)@ == (ClientView { in_flight: Map::empty(), ..old(self)@ }),
    {
        let ghost before = self@;
        self.in_flight.clear();
        assert(self@ =~= ClientView { in_flight: Map::empty(), ..before });
    }
}

/// A message that a stream takes in two parts is kept in between, and nothing
/// is left of it afterwards: the two parts make up the message.
pub proof fn message_in_parts_is_written(client: ClientView, sid: u64, data: Seq<u8>, n: usize)
    requires
        n < data.len() <= usize::MAX,
        !client.partial_writes.contains_key(sid),
    ensures
        ({
            let (first, waiting) = after_write(client, sid, data, SendResult::Written(n));
            let (second, done) = after_flush(
                waiting,
                sid,
                SendResult::Written((data.len() - n) as usize),
            );
            &&& first == Ok::<bool, StreamError>(false)
            &&& data.take(n as int) + waiting.partial_writes[sid] == data
            &&& second == Ok::<bool, StreamError>(true)
            &&& done == client
        }),
{
    let (first, waiting) = after_write(client, sid, data, SendResult::Written(n));
    let (second, done) = after_flush(
        waiting,
        sid,
        SendResult::Written((data.len() - n) as usize),
    );
    assert(data.take(n as int) + waiting.partial_writes[sid] =~= data);
    assert(done =~= client);
}

/// The beginning of a message is found again, before what is received later.
pub proof fn partial_read_is_resumed(client: ClientView, sid: u64, rest: Seq<u8>, later: Seq<u8>)
    ensures
        resume_read(keep_partial(client, sid, rest), sid, later) == (
            rest + later,
            ClientView { partial_reads: client.partial_reads.remove(sid), ..client },
        ),
{
    assert(resume_read(keep_partial(client, sid, rest), sid, later).1 =~= ClientView {
        partial_reads: client.partial_reads.remove(sid),
        ..client
    });
}

/// A stream with bytes that are not written yet is never closed.
pub proof fn unwritten_stream_stays_open(
    statuses: Seq<StreamStatus>,
    partial_writes: Map<u64, Seq<u8>>,
    sid: u64,
)
    requires
        partial_writes.contains_key(sid),
    ensures
        !to_close(statuses, partial_writes).contains(sid),
    decreases statuses.len(),
{
    if statuses.len() > 0 {
        unwritten_stream_stays_open(statuses.drop_last(), partial_writes, sid);
    }
}

/// The first messages of a stream start a worker, if the client can receive
/// datagrams, and all later ones go to it, until the peer has finished.
pub proof fn stream_gets_one_worker(
    client: ClientView,
    sid: u64,
    has_messages: bool,
    fin: bool,
    max_dgram_len: Option<usize>,
    other: u64,
)
    ensures
        ({
            let (decision, after) = after_read(client, sid, has_messages, fin, max_dgram_len);
            let known = client.in_flight.contains_key(sid);
            &&& decision is Forward <==> known
            &&& decision is Spawn <==> !known && has_messages && max_dgram_len is Some
            &&& decision matches StreamDecision::Spawn { max_dgram_len: len } ==> max_dgram_len
                == Some(len)
            &&& decision is Skip <==> !known && !has_messages
            &&& decision is NoDatagrams <==> !known && has_messages && max_dgram_len is None
            &&& decision is Forward || decision is Spawn ==> after.in_flight.contains_key(sid) && (
            after.in_flight[sid].accepts_messages <==> !fin)
            &&& decision is Skip || decision is NoDatagrams ==> after == client
            &&& other != sid ==> after.in_flight.contains_key(other)
                == client.in_flight.contains_key(other) && after.in_flight[other]
                == client.in_flight[other]
            &&& after.partial_reads == client.partial_reads && after.partial_writes
                == client.partial_writes
        }),
{
}

/// A client with streams is pinged once a second has passed since the last time,
/// and then not before another has. One without streams is never pinged.
pub proof fn pings_are_a_second_apart(client: ClientView, now: u64, later: u64)
    requires
        client.last_keepalive <= now <= later,
        client.in_flight.dom().finite(),
    ensures
        ({
            let (due, after) = after_keepalive(client, now);
            &&& due <==> client.in_flight.dom() != Set::<u64>::empty() && now
                - client.last_keepalive >= 1_000_000_000
            &&& due && later - now < 1_000_000_000 ==> !after_keepalive(after, later).0
            &&& due && later - now >= 1_000_000_000 ==> after_keepalive(after, later).0
            &&& !due ==> after == client
            &&& after.in_flight == client.in_flight
        }),
{
    if client.in_flight.dom().len() == 0 {
        assert(client.in_flight.dom() =~= Set::empty());
    } else {
        assert(client.in_flight.dom() != Set::<u64>::empty());
    }
}

/// What a stream does not take is kept, and nothing else: what was taken and what
/// is kept make up the message.
pub proof fn unwritten_bytes_are_kept(
    client: ClientView,
    sid: u64,
    data: Seq<u8>,
    result: SendResult,
    other: u64,
)
    requires
        result matches SendResult::Written(n) ==> n <= data.len(),
        !client.partial_writes.contains_key(sid),
    ensures
        ({
            let (outcome, after) = after_write(client, sid, data, result);
            &&& outcome is Err <==> result is Failed
            &&& outcome == Ok::<bool, StreamError>(true) <==> (result matches SendResult::Written(n)
                && n == data.len())
            &&& outcome == Ok::<bool, StreamError>(false) <==> after.partial_writes.contains_key(
                sid,
            )
            &&& outcome == Ok::<bool, StreamError>(false) ==> (match result {
                SendResult::Written(n) => data.take(n as int) + after.partial_writes[sid] == data,
                _ => after.partial_writes[sid] == data,
            })
            &&& other != sid ==> after.partial_writes.contains_key(other)
                == client.partial_writes.contains_key(other) && after.partial_writes[other]
                == client.partial_writes[other]
            &&& after.in_flight == client.in_flight && after.partial_reads == client.partial_reads
        }),
{
    if let SendResult::Written(n) = result {
        assert(data.take(n as int) + data.skip(n as int) =~= data);
    }
}

/// Flushing goes on where writing stopped: what was taken then and what is kept
/// make up what was kept before.
pub proof fn flush_goes_on(client: ClientView, sid: u64, result: SendResult, other: u64)
    requires
        client.partial_writes.contains_key(sid),
        result matches SendResult::Written(n) ==> n <= client.partial_writes[sid].len(),
    ensures
        ({
            let rest = client.partial_writes[sid];
            let (outcome, after) = after_flush(client, sid, result);
            &&& outcome is Err <==> result is Failed
            &&& outcome == Ok::<bool, StreamError>(true) <==> !after.partial_writes.contains_key(
                sid,
            )
            &&& outcome == Ok::<bool, StreamError>(true) <==> (result matches SendResult::Written(n)
                && n == rest.len())
            &&& (result matches SendResult::Written(n) && n < rest.len()) ==> (result matches
                SendResult::Written(n) && rest.take(n as int) + after.partial_writes[sid] == rest)
            &&& !(result is Written) ==> after == client
            &&& other != sid ==> after.partial_writes[other] == client.partial_writes[other]
                && after.partial_writes.contains_key(other) == client.partial_writes.contains_key(
                other,
            )
        }),
{
    if let SendResult::Written(n) = result {
        let rest = client.partial_writes[sid];
        assert(rest.take(n as int) + rest.skip(n as int) =~= rest);
    }
}

/// A worker whose peer has finished gets no more messages; no worker is dropped
/// by that, and no other is touched.
pub proof fn finished_peers_are_noticed(
    workers: Map<u64, StreamWorker>,
    statuses: Seq<StreamStatus>,
    sid: u64,
)
    ensures
        ({
            let after = hung_up(workers, statuses);
            let finished = exists|i: int|
                0 <= i < statuses.len() && (#[trigger] statuses[i]).sid == sid
                    && statuses[i].peer_finished;
            &&& after.contains_key(sid) == workers.contains_key(sid)
            &&& workers.contains_key(sid) && finished ==> !after[sid].accepts_messages
            &&& workers.contains_key(sid) && !finished ==> after[sid] == workers[sid]
        }),
    decreases statuses.len(),
{
    if statuses.len() > 0 {
        let init = statuses.drop_last();
        let n = statuses.len() - 1;
        finished_peers_are_noticed(workers, init, sid);
        let before = exists|i: int|
            0 <= i < init.len() && (#[trigger] init[i]).sid == sid && init[i].peer_finished;
        let finished = exists|i: int|
            0 <= i < statuses.len() && (#[trigger] statuses[i]).sid == sid
                && statuses[i].peer_finished;
        if before {
            let i = choose|i: int|
                0 <= i < init.len() && (#[trigger] init[i]).sid == sid && init[i].peer_finished;
            assert(statuses[i].sid == sid && statuses[i].peer_finished);
        }
        if finished && !before {
            let i = choose|i: int|
                0 <= i < statuses.len() && (#[trigger] statuses[i]).sid == sid
                    && statuses[i].peer_finished;
            if i < n {
                assert(init[i].sid == sid && init[i].peer_finished);
            }
        }
        assert(statuses[n] == statuses.last());
    }
}

/// A stream is closed exactly if its worker is done and everything is written.
pub proof fn finished_streams_are_closed(
    statuses: Seq<StreamStatus>,
    partial_writes: Map<u64, Seq<u8>>,
    sid: u64,
)
    ensures
        to_close(statuses, partial_writes).contains(sid) <==> !partial_writes.contains_key(sid) && (
        exists|i: int|
            0 <= i < statuses.len() && (#[trigger] statuses[i]).sid == sid
                && statuses[i].worker_done && statuses[i].outgoing_empty),
    decreases statuses.len(),
{
    if statuses.len() > 0 {
        let init = statuses.drop_last();
        let n = statuses.len() - 1;
        let last = statuses.last();
        assert(statuses[n] == last);
        finished_streams_are_closed(init, partial_writes, sid);
        let rest = to_close(init, partial_writes);
        let all = to_close(statuses, partial_writes);
        if rest.contains(sid) {
            let k = rest.index_of(sid);
            assert(all[k] == sid);
            let i = choose|i: int|
                0 <= i < init.len() && (#[trigger] init[i]).sid == sid && init[i].worker_done
                    && init[i].outgoing_empty;
            assert(statuses[i].sid == sid && statuses[i].worker_done && statuses[i].outgoing_empty);
        }
        if all.contains(sid) && !rest.contains(sid) {
            let k = all.index_of(sid);
            if k < rest.len() {
                assert(rest[k] == sid);
            }
        }
        if closable(last, partial_writes) {
            assert(all[rest.len() as int] == last.sid);
        }
        if exists|i: int|
            0 <= i < statuses.len() && (#[trigger] statuses[i]).sid == sid
                && statuses[i].worker_done && statuses[i].outgoing_empty {
            let i = choose|i: int|
                0 <= i < statuses.len() && (#[trigger] statuses[i]).sid == sid
                    && statuses[i].worker_done && statuses[i].outgoing_empty;
            if i < n {
                assert(init[i].sid == sid && init[i].worker_done && init[i].outgoing_empty);
            }
        }
    }
}

/// Datagrams are sent one after the other while that works; a client that they
/// cannot be sent to is disconnected.
pub proof fn failed_datagram_disconnects(event: DgramEvent, step: DgramStep)
    requires
        call_ensures(dgram_step, (event,), step),
    ensures
        step is Next <==> event is Sent,
        step is Close <==> event is Failed,
        step matches DgramStep::Close(code) ==> code == ErrorCode::ErrorProtocol,
{
}

/// A peer that broke the protocol is told what is wrong; any other failure is the
/// server's own affair.
pub proof fn only_protocol_errors_are_explained(failure: ReadFailure, error: ServerError)
    requires
        call_ensures(ReadFailure::into_error, (failure,), error),
    ensures
        failure matches ReadFailure::Protocol(text) ==> error@.0 == ErrorCode::ErrorProtocol
            && error@.1 == Some(text@),
        failure is Other ==> error@.0 == ErrorCode::ErrorServer && error@.1 == Some(
            "Internal server error"@,
        ),
{
}

/// The local side of a packet is the last that the socket reports, on the port
/// that the server listens on; other reports do not matter.
pub proof fn last_report_counts(infos: Seq<PacketInfo>, info: PacketInfo, port: u16)
    ensures
        last_local(infos.push(info), port) == match info {
            PacketInfo::Other => last_local(infos, port),
            PacketInfo::V4 { interface, spec_dst, addr } => Some(
                LocalSocketInfo::V4 { interface, spec_dst, addr, port },
            ),
            PacketInfo::V6 { addr, interface } => Some(
                LocalSocketInfo::V6 { addr, interface, port },
            ),
        },
        last_local(infos, port) matches Some(local) ==> local.spec_socket_addr().port == port,
    decreases infos.len(),
{
    assert(infos.push(info).drop_last() =~= infos);
    if infos.len() > 0 {
        last_report_counts(infos.drop_last(), infos.last(), port);
        assert(infos.drop_last().push(infos.last()) =~= infos);
    }
}

/// The address of the local side is that of its family.
pub proof fn local_address_is_kept(local: LocalSocketInfo)
    ensures
        local matches LocalSocketInfo::V4 { addr: a, port: p, .. } ==> local.spec_socket_addr().ip
            == IpAddr::V4(a) && local.spec_socket_addr().port == p,
        local matches LocalSocketInfo::V6 { addr: a, port: p, .. } ==> local.spec_socket_addr().ip
            == IpAddr::V6(a) && local.spec_socket_addr().port == p,
{
}

/// What was received is decoded after what was left of the stream before, and
/// nothing of it is left then.
pub proof fn reading_goes_on(client: ClientView, sid: u64, received: Seq<u8>, other: u64)
    ensures
        ({
            let (bytes, after) = resume_read(client, sid, received);
            &&& client.partial_reads.contains_key(sid) ==> bytes.len()
                == client.partial_reads[sid].len() + received.len() && bytes.take(
                client.partial_reads[sid].len() as int,
            ) == client.partial_reads[sid] && bytes.skip(client.partial_reads[sid].len() as int)
                == received
            &&& !client.partial_reads.contains_key(sid) ==> bytes == received
            &&& !after.partial_reads.contains_key(sid)
            &&& other != sid ==> after.partial_reads.contains_key(other)
                == client.partial_reads.contains_key(other) && after.partial_reads[other]
                == client.partial_reads[other]
            &&& after.in_flight == client.in_flight
        }),
{
    let (bytes, after) = resume_read(client, sid, received);
    if client.partial_reads.contains_key(sid) {
        let old = client.partial_reads[sid];
        assert(bytes.take(old.len() as int) =~= old);
        assert(bytes.skip(old.len() as int) =~= received);
    }
}

} // verus!
