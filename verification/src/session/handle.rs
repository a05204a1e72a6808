//! The clients of a session, and what is sent to each of them.

use std::collections::BTreeMap;
use vstd::prelude::*;
use bytes::Bytes;
use crate::bytes_ext::bytes_clone;
use crate::control::SessionEvent;
use crate::server::chunk::Chunk;
use crate::server::protocol::MediaChunk;
use crate::server::stream::StreamWriter;

verus! {

broadcast use vstd::std_specs::btree::group_btree_axioms;

/// The clients that are attached, each with the writer of its streams.
pub struct SessionHandle {
    pub attachments: BTreeMap<u64, StreamWriter>,
}

impl View for SessionHandle {
    type V = Map<u64, StreamWriter>;

    open spec fn view(&self) -> Map<u64, StreamWriter> {
        self.attachments@
    }
}

/// The ids of the clients, in ascending order.
pub open spec fn lists_clients(ids: Seq<u64>, clients: Map<u64, StreamWriter>) -> bool {
    &&& ids.to_set() == clients.dom()
    &&& forall|i: int, j: int| 0 <= i < j < ids.len() ==> ids[i] < ids[j]
}

/// What a client gets: an event, and a frame in chunks.
pub struct Dispatch {
    pub client: u64,
    pub event: SessionEvent,
    pub chunks: Vec<MediaChunk>,
}

impl SessionHandle {
    pub fn new() -> (handle: SessionHandle)
        ensures
            handle@ == Map::<u64, StreamWriter>::empty(),
    {
        SessionHandle { attachments: BTreeMap::new() }
    }

    pub fn insert_client(&mut self, id: u64, writer: StreamWriter)
        ensures
            final(self)@ == old(self)@.insert(id, writer),
    {
        self.attachments.insert(id, writer);
    }

    pub fn remove_client(&mut self, id: u64)
        ensures
            final(self)@ == old(self)@.remove(id),
    {
        self.attachments.remove(&id);
    }

    pub fn remove_all(&mut self)
        ensures
            final(self)@ == Map::<u64, StreamWriter>::empty(),
    {
        self.attachments.clear();
    }

    pub fn num_attachments(&self) -> (n: usize)
        ensures
            n == self@.dom().len(),
    {
        self.attachments.len()
    }

    /// Every client, in ascending order.
    pub fn client_ids(&self) -> (ids: Vec<u64>)
        ensures
            lists_clients(ids@, self@),
    {
        let mut ids: Vec<u64> = Vec::new();
        let iter = self.attachments.iter();
        let ghost all = vstd::std_specs::iter::IteratorSpec::remaining(&iter);
        let ghost keys = all.map_values(|entry: (&u64, &StreamWriter)| *entry.0);
        assert(vstd::std_specs::btree::increasing_seq(keys));
        assert forall|i: int, j: int| 0 <= i < j < keys.len() implies keys[i] < keys[j] by {
            assert(vstd::laws_cmp::obeys_cmp::<u64>());
            assert(vstd::std_specs::cmp::OrdSpec::cmp_spec(&keys[i], &keys[j]) is Less);
        }
        for entry in entries: iter
            invariant
                entries.seq() == all,
                ids@.len() == entries.index(),
                forall|i: int| 0 <= i < ids@.len() ==> ids@[i] == *(#[trigger] all[i]).0,
        {
            ids.push(*entry.0);
        }
        proof {
            assert(ids@ =~= keys);
            assert forall|id: u64| ids@.to_set().contains(id) == self@.contains_key(id) by {
                if self@.contains_key(id) {
                    assert(all.contains((&id, &self.attachments@[id])));
                    let i = choose|i: int| 0 <= i < all.len() && all[i] == (
                        &id,
                        &self.attachments@[id],
                    );
                    assert(ids@[i] == id);
                }
                if ids@.contains(id) {
                    let i = choose|i: int| 0 <= i < ids@.len() && ids@[i] == id;
                    assert(self.attachments@.contains_key(*all[i].0));
                }
            }
            assert(ids@.to_set() =~= self@.dom());
        }
        ids
    }
}

/// A client got a video frame, and counted it.
pub open spec fn got_video(
    dispatch: Dispatch,
    client: u64,
    writer: StreamWriter,
    after: StreamWriter,
    pts: u64,
    frame: Seq<u8>,
    layer: u32,
    restart: bool,
    repair: Option<u32>,
) -> bool {
    let (stream_seq, seq) = writer.next_video(restart);
    &&& dispatch.client == client
    &&& dispatch.event matches SessionEvent::VideoFrame {
        stream_seq: s,
        seq: n,
        ts,
        frame: f,
        hierarchical_layer,
    } && s == stream_seq && n == seq && ts == pts && hierarchical_layer == layer
        && crate::bytes_ext::contents(f) == frame
    &&& exists|chunks: Seq<Chunk>|
        #![trigger crate::server::chunk::chunks_of(chunks, frame, writer.chunk_size, repair)]
        crate::server::chunk::chunks_of(chunks, frame, writer.chunk_size, repair)
            && crate::server::stream::messages_for(
            dispatch.chunks@,
            chunks,
            writer.session_id,
            writer.attachment_id,
            stream_seq,
            seq,
            layer,
            pts,
        )
    &&& after == writer.after_video(restart)
}

/// A client got an audio frame, and counted it.
pub open spec fn got_audio(
    dispatch: Dispatch,
    client: u64,
    writer: StreamWriter,
    after: StreamWriter,
    pts: u64,
    frame: Seq<u8>,
    restart: bool,
) -> bool {
    let (stream_seq, seq) = writer.next_audio(restart);
    &&& dispatch.client == client
    &&& dispatch.event matches SessionEvent::AudioFrame { stream_seq: s, seq: n, ts, frame: f }
        && s == stream_seq && n == seq && ts == pts && crate::bytes_ext::contents(f) == frame
    &&& exists|chunks: Seq<Chunk>|
        #![trigger crate::server::chunk::chunks_of(chunks, frame, writer.chunk_size, None)]
        crate::server::chunk::chunks_of(chunks, frame, writer.chunk_size, None)
            && crate::server::stream::messages_for(
            dispatch.chunks@,
            chunks,
            writer.session_id,
            writer.attachment_id,
            stream_seq,
            seq,
            0,
            pts,
        )
    &&& after == writer.after_audio(restart)
}

/// A writer can take one more video frame of so many bytes.
pub open spec fn can_write_video(writer: StreamWriter, len: int, repair: Option<u32>) -> bool {
    &&& crate::server::chunk::chunkable(len, writer.chunk_size, repair)
    &&& writer.video_stream_seq < u64::MAX
    &&& writer.video_seq < u64::MAX
}

/// A writer can take one more audio frame of so many bytes.
pub open spec fn can_write_audio(writer: StreamWriter, len: int) -> bool {
    &&& crate::server::chunk::chunkable(len, writer.chunk_size, None)
    &&& writer.audio_stream_seq < u64::MAX
    &&& writer.audio_seq < u64::MAX
}

impl SessionHandle {
    /// The clients that an event is sent to: all of them.
    pub fn dispatch(&self) -> (ids: Vec<u64>)
        ensures
            lists_clients(ids@, self@),
    {
        self.client_ids()
    }

    /// Drops every client. Returns those that are told of the shutdown: all
    /// that were there.
    pub fn kick_clients(&mut self) -> (ids: Vec<u64>)
        ensures
            lists_clients(ids@, old(self)@),
            final(self)@ == Map::<u64, StreamWriter>::empty(),
    {
        let ids = self.client_ids();
        self.attachments.clear();
        ids
    }

    /// Sends a video frame to every client. `repairs` gives, for each client
    /// in ascending order, the number of chunks that are added for error
    /// correction, if there is any.
    pub fn dispatch_video_frame(
        &mut self,
        pts: u64,
        frame: Bytes,
        hierarchical_layer: u32,
        stream_restart: bool,
        repairs: &Vec<Option<u32>>,
    ) -> (sent: Vec<Dispatch>)
        requires
            repairs@.len() == old(self)@.dom().len(),
            forall|ids: Seq<u64>, i: int|
                #![trigger lists_clients(ids, old(self)@), repairs@[i]]
                lists_clients(ids, old(self)@) && 0 <= i < ids.len() ==> can_write_video(
                    old(self)@[ids[i]],
                    crate::bytes_ext::contents(frame).len() as int,
                    repairs@[i],
                ),
        ensures
            final(self)@.dom() == old(self)@.dom(),
            exists|ids: Seq<u64>|
                #![trigger lists_clients(ids, old(self)@)]
                lists_clients(ids, old(self)@) && ids.len() == sent@.len() && forall|i: int|
                    0 <= i < ids.len() ==> got_video(
                        #[trigger] sent@[i],
                        ids[i],
                        old(self)@[ids[i]],
                        final(self)@[ids[i]],
                        pts,
                        crate::bytes_ext::contents(frame),
                        hierarchical_layer,
                        stream_restart,
                        repairs@[i],
                    ),
    {
        let ids = self.client_ids();
        let ghost before = self@;
        let ghost data = crate::bytes_ext::contents(frame);
        proof {
            lemma_count(ids@, before);
        }
        let mut sent: Vec<Dispatch> = Vec::new();
        let mut i: usize = 0;
        while i < ids.len()
            invariant
                i <= ids@.len(),
                sent@.len() == i,
                before == old(self)@,
                data == crate::bytes_ext::contents(frame),
                lists_clients(ids@, before),
                ids@.len() == repairs@.len(),
                self@.dom() == before.dom(),
                forall|j: int| i <= j < ids@.len() ==> self@[#[trigger] ids@[j]] == before[ids@[j]],
                forall|j: int|
                    0 <= j < ids@.len() ==> can_write_video(
                        before[ids@[j]],
                        data.len() as int,
                        #[trigger] repairs@[j],
                    ),
                forall|j: int|
                    0 <= j < i ==> got_video(
                        #[trigger] sent@[j],
                        ids@[j],
                        before[ids@[j]],
                        self@[ids@[j]],
                        pts,
                        data,
                        hierarchical_layer,
                        stream_restart,
                        repairs@[j],
                    ),
            decreases ids.len() - i,
        {
            let id: u64 = ids[i];
            let repair: Option<u32> = repairs[i];
            let ghost held = self@;
            assert(ids@.to_set().contains(ids@[i as int]));
            assert(before.contains_key(id));
            assert(can_write_video(before[id], data.len() as int, repairs@[i as int]));
            if let Some(mut writer) = self.attachments.remove(&id) {
                let copy = bytes_clone(&frame);
                let (stream_seq, seq, chunks): (u64, u64, Vec<MediaChunk>) =
                    writer.write_video_frame(
                    pts,
                    copy,
                    hierarchical_layer,
                    stream_restart,
                    repair,
                );
                let dispatch = Dispatch {
                    client: id,
                    event: SessionEvent::VideoFrame {
                        stream_seq,
                        seq,
                        ts: pts,
                        frame: bytes_clone(&frame),
                        hierarchical_layer,
                    },
                    chunks,
                };
                assert(got_video(
                    dispatch,
                    id,
                    before[id],
                    writer,
                    pts,
                    data,
                    hierarchical_layer,
                    stream_restart,
                    repair,
                ));
                sent.push(dispatch);
                self.attachments.insert(id, writer);
                assert(self@ =~= held.insert(id, writer));
                assert(self@.dom() =~= before.dom());
            }
            i += 1;
        }
        assert(lists_clients(ids@, before));
        sent
    }

    /// Sends an audio frame to every client.
    pub fn dispatch_audio_frame(&mut self, pts: u64, frame: Bytes, stream_restart: bool) -> (sent:
        Vec<Dispatch>)
        requires
            forall|id: u64| #[trigger]
                old(self)@.contains_key(id) ==> can_write_audio(
                    old(self)@[id],
                    crate::bytes_ext::contents(frame).len() as int,
                ),
        ensures
            final(self)@.dom() == old(self)@.dom(),
            exists|ids: Seq<u64>|
                #![trigger lists_clients(ids, old(self)@)]
                lists_clients(ids, old(self)@) && ids.len() == sent@.len() && forall|i: int|
                    0 <= i < ids.len() ==> got_audio(
                        #[trigger] sent@[i],
                        ids[i],
                        old(self)@[ids[i]],
                        final(self)@[ids[i]],
                        pts,
                        crate::bytes_ext::contents(frame),
                        stream_restart,
                    ),
    {
        let ids = self.client_ids();
        let ghost before = self@;
        let ghost data = crate::bytes_ext::contents(frame);
        let mut sent: Vec<Dispatch> = Vec::new();
        let mut i: usize = 0;
        while i < ids.len()
            invariant
                i <= ids@.len(),
                sent@.len() == i,
                before == old(self)@,
                data == crate::bytes_ext::contents(frame),
                lists_clients(ids@, before),
                self@.dom() == before.dom(),
                forall|j: int| i <= j < ids@.len() ==> self@[#[trigger] ids@[j]] == before[ids@[j]],
                forall|id: u64| #[trigger]
                    before.contains_key(id) ==> can_write_audio(before[id], data.len() as int),
                forall|j: int|
                    0 <= j < i ==> got_audio(
                        #[trigger] sent@[j],
                        ids@[j],
                        before[ids@[j]],
                        self@[ids@[j]],
                        pts,
                        data,
                        stream_restart,
                    ),
            decreases ids.len() - i,
        {
            let id: u64 = ids[i];
            let ghost held = self@;
            assert(ids@.to_set().contains(ids@[i as int]));
            assert(before.contains_key(id));
            if let Some(mut writer) = self.attachments.remove(&id) {
                let copy = bytes_clone(&frame);
                let (stream_seq, seq, chunks): (u64, u64, Vec<MediaChunk>) =
                    writer.write_audio_frame(pts, copy, stream_restart);
                let dispatch = Dispatch {
                    client: id,
                    event: SessionEvent::AudioFrame {
                        stream_seq,
                        seq,
                        ts: pts,
                        frame: bytes_clone(&frame),
                    },
                    chunks,
                };
                assert(got_audio(dispatch, id, before[id], writer, pts, data, stream_restart));
                sent.push(dispatch);
                self.attachments.insert(id, writer);
                assert(self@ =~= held.insert(id, writer));
                assert(self@.dom() =~= before.dom());
            }
            i += 1;
        }
        assert(lists_clients(ids@, before));
        sent
    }
}

proof fn lemma_count(ids: Seq<u64>, clients: Map<u64, StreamWriter>)
    requires
        lists_clients(ids, clients),
    ensures
        ids.len() == clients.dom().len(),
{
    assert(ids.no_duplicates());
    ids.unique_seq_to_set();
}

/// A client gets a video frame under its own name, with the numbers that are next
/// for it, the time and the layer of the frame, and the frame itself, whole.
pub proof fn client_gets_whole_video_frame(
    dispatch: Dispatch,
    client: u64,
    writer: StreamWriter,
    after: StreamWriter,
    pts: u64,
    frame: Seq<u8>,
    layer: u32,
    restart: bool,
    i: int,
)
    requires
        got_video(dispatch, client, writer, after, pts, frame, layer, restart, None),
        writer.chunk_size > 0,
        writer.video_stream_seq < u64::MAX,
        writer.video_seq < u64::MAX,
    ensures
        dispatch.client == client,
        crate::server::stream::joined_messages(dispatch.chunks@) == frame,
        0 <= i < dispatch.chunks@.len() ==> {
            let chunk = dispatch.chunks@[i];
            &&& chunk.session_id == writer.session_id
            &&& chunk.attachment_id == writer.attachment_id
            &&& chunk.hierarchical_layer == layer
            &&& chunk.timestamp == pts
            &&& chunk.chunk == i && chunk.num_chunks == dispatch.chunks@.len()
            &&& restart ==> chunk.stream_seq == writer.video_stream_seq + 1 && chunk.seq == 0
            &&& !restart ==> chunk.stream_seq == writer.video_stream_seq && chunk.seq
                == writer.video_seq
        },
        dispatch.event matches SessionEvent::VideoFrame {
            stream_seq,
            seq,
            ts,
            hierarchical_layer,
            ..
        } && stream_seq == after.video_stream_seq && seq + 1 == after.video_seq && ts == pts
            && hierarchical_layer == layer,
        after.audio_seq == writer.audio_seq,
{
    let (stream_seq, seq) = writer.next_video(restart);
    let chunks = choose|chunks: Seq<Chunk>|
        #![trigger crate::server::chunk::chunks_of(chunks, frame, writer.chunk_size, None)]
        crate::server::chunk::chunks_of(chunks, frame, writer.chunk_size, None)
            && crate::server::stream::messages_for(
            dispatch.chunks@,
            chunks,
            writer.session_id,
            writer.attachment_id,
            stream_seq,
            seq,
            layer,
            pts,
        );
    crate::server::chunk::chunks_join_to_frame(chunks, frame, writer.chunk_size as int);
    crate::server::stream::messages_carry_chunks(
        dispatch.chunks@,
        chunks,
        writer.session_id,
        writer.attachment_id,
        stream_seq,
        seq,
        layer,
        pts,
    );
}

/// The same holds of an audio frame, which has no layer.
pub proof fn client_gets_whole_audio_frame(
    dispatch: Dispatch,
    client: u64,
    writer: StreamWriter,
    after: StreamWriter,
    pts: u64,
    frame: Seq<u8>,
    restart: bool,
    i: int,
)
    requires
        got_audio(dispatch, client, writer, after, pts, frame, restart),
        writer.chunk_size > 0,
        writer.audio_stream_seq < u64::MAX,
        writer.audio_seq < u64::MAX,
    ensures
        dispatch.client == client,
        crate::server::stream::joined_messages(dispatch.chunks@) == frame,
        0 <= i < dispatch.chunks@.len() ==> {
            let chunk = dispatch.chunks@[i];
            &&& chunk.session_id == writer.session_id
            &&& chunk.attachment_id == writer.attachment_id
            &&& chunk.hierarchical_layer == 0
            &&& chunk.timestamp == pts
            &&& chunk.chunk == i && chunk.num_chunks == dispatch.chunks@.len()
            &&& restart ==> chunk.stream_seq == writer.audio_stream_seq + 1 && chunk.seq == 0
            &&& !restart ==> chunk.stream_seq == writer.audio_stream_seq && chunk.seq
                == writer.audio_seq
        },
        dispatch.event matches SessionEvent::AudioFrame { stream_seq, seq, ts, .. } && stream_seq
            == after.audio_stream_seq && seq + 1 == after.audio_seq && ts == pts,
        after.video_seq == writer.video_seq,
{
    let (stream_seq, seq) = writer.next_audio(restart);
    let chunks = choose|chunks: Seq<Chunk>|
        #![trigger crate::server::chunk::chunks_of(chunks, frame, writer.chunk_size, None)]
        crate::server::chunk::chunks_of(chunks, frame, writer.chunk_size, None)
            && crate::server::stream::messages_for(
            dispatch.chunks@,
            chunks,
            writer.session_id,
            writer.attachment_id,
            stream_seq,
            seq,
            0,
            pts,
        );
    crate::server::chunk::chunks_join_to_frame(chunks, frame, writer.chunk_size as int);
    crate::server::stream::messages_carry_chunks(
        dispatch.chunks@,
        chunks,
        writer.session_id,
        writer.attachment_id,
        stream_seq,
        seq,
        0,
        pts,
    );
}

/// Each client is listed once.
pub proof fn clients_are_listed_once(
    ids: Seq<u64>,
    clients: Map<u64, StreamWriter>,
    i: int,
    j: int,
)
    requires
        lists_clients(ids, clients),
        0 <= i < j < ids.len(),
    ensures
        ids[i] != ids[j],
        clients.contains_key(ids[i]),
        forall|id: u64| #[trigger] clients.contains_key(id) ==> ids.contains(id),
{
    assert(ids.to_set().contains(ids[i]));
    assert forall|id: u64| #[trigger] clients.contains_key(id) implies ids.contains(id) by {
        assert(ids.to_set().contains(id));
    }
}

} // verus!
