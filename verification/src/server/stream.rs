//! Writing frames out as chunks. Frames are counted within a stream, and
//! streams within an attachment.

use vstd::prelude::*;
use bytes::Bytes;
use crate::server::chunk::{iter_chunks, Chunk};
use crate::server::protocol::MediaChunk;

verus! {

/// The part of a datagram that is left to the headers of a chunk.
pub const CHUNK_HEADROOM: usize = 128;

/// Writes the frames of an attachment.
pub struct StreamWriter {
    pub session_id: u64,
    pub attachment_id: u64,
    pub chunk_size: usize,
    pub max_dgram_len: usize,
    /// The error correction of each layer, as the bits of a ratio.
    pub fec_ratios: Vec<u32>,
    pub audio_stream_seq: u64,
    pub audio_seq: u64,
    pub video_stream_seq: u64,
    pub video_seq: u64,
}

/// The messages that carry the chunks of a frame.
pub open spec fn messages_for(
    messages: Seq<MediaChunk>,
    chunks: Seq<Chunk>,
    session_id: u64,
    attachment_id: u64,
    stream_seq: u64,
    seq: u64,
    layer: u32,
    pts: u64,
) -> bool {
    &&& messages.len() == chunks.len()
    &&& forall|i: int|
        0 <= i < chunks.len() ==> #[trigger] messages[i] == (MediaChunk {
            session_id,
            attachment_id,
            stream_seq,
            seq,
            data: chunks[i].data,
            chunk: chunks[i].index,
            num_chunks: chunks[i].num_chunks,
            hierarchical_layer: layer,
            timestamp: pts,
            fec_metadata: chunks[i].fec_metadata,
        })
}

/// Puts the chunks of a frame into messages.
pub fn chunk_messages(
    chunks: Vec<Chunk>,
    session_id: u64,
    attachment_id: u64,
    stream_seq: u64,
    seq: u64,
    layer: u32,
    pts: u64,
) -> (messages: Vec<MediaChunk>)
    ensures
        messages_for(
            messages@,
            chunks@,
            session_id,
            attachment_id,
            stream_seq,
            seq,
            layer,
            pts,
        ),
{
    let ghost all = chunks@;
    let mut rest = chunks;
    let mut messages: Vec<MediaChunk> = Vec::new();
    while rest.len() > 0
        invariant
            messages@.len() + rest@.len() == all.len(),
            rest@ == all.skip(messages@.len() as int),
            forall|i: int|
                0 <= i < messages@.len() ==> #[trigger] messages@[i] == (MediaChunk {
                    session_id,
                    attachment_id,
                    stream_seq,
                    seq,
                    data: all[i].data,
                    chunk: all[i].index,
                    num_chunks: all[i].num_chunks,
                    hierarchical_layer: layer,
                    timestamp: pts,
                    fec_metadata: all[i].fec_metadata,
                }),
        decreases rest.len(),
    {
        let ghost n = messages@.len();
        let chunk = rest.remove(0);
        assert(chunk == all[n as int]);
        assert(rest@ =~= all.skip(n as int + 1));
        messages.push(
            MediaChunk {
                session_id,
                attachment_id,
                stream_seq,
                seq,
                data: chunk.data,
                chunk: chunk.index,
                num_chunks: chunk.num_chunks,
                hierarchical_layer: layer,
                timestamp: pts,
                fec_metadata: chunk.fec_metadata,
            },
        );
    }
    messages
}

impl StreamWriter {
    /// The first stream gets number one, when it starts.
    pub fn new(
        session_id: u64,
        attachment_id: u64,
        fec_ratios: Vec<u32>,
        max_dgram_len: usize,
    ) -> (writer: StreamWriter)
        requires
            max_dgram_len >= CHUNK_HEADROOM,
        ensures
            writer == (StreamWriter {
                session_id,
                attachment_id,
                chunk_size: (max_dgram_len - CHUNK_HEADROOM) as usize,
                max_dgram_len,
                fec_ratios,
                audio_stream_seq: 0,
                audio_seq: 0,
                video_stream_seq: 0,
                video_seq: 0,
            }),
    {
        StreamWriter {
            session_id,
            attachment_id,
            chunk_size: max_dgram_len - CHUNK_HEADROOM,
            max_dgram_len,
            fec_ratios,
            audio_stream_seq: 0,
            audio_seq: 0,
            video_stream_seq: 0,
            video_seq: 0,
        }
    }

    /// The error correction of a layer: none, where it is not configured.
    pub open spec fn spec_fec_ratio(self, layer: u32) -> u32 {
        if layer < self.fec_ratios@.len() {
            self.fec_ratios@[layer as int]
        } else {
            0
        }
    }

    pub fn fec_ratio(&self, layer: u32) -> (ratio: u32)
        ensures
            ratio == self.spec_fec_ratio(layer),
    {
        if (layer as usize) < self.fec_ratios.len() {
            self.fec_ratios[layer as usize]
        } else {
            0
        }
    }

    /// The numbers of the next video frame.
    pub open spec fn next_video(self, restart: bool) -> (u64, u64) {
        if restart {
            ((self.video_stream_seq + 1) as u64, 0)
        } else {
            (self.video_stream_seq, self.video_seq)
        }
    }

    pub open spec fn next_audio(self, restart: bool) -> (u64, u64) {
        if restart {
            ((self.audio_stream_seq + 1) as u64, 0)
        } else {
            (self.audio_stream_seq, self.audio_seq)
        }
    }

    /// The writer, after the next video frame.
    pub open spec fn after_video(self, restart: bool) -> StreamWriter {
        let (stream, seq) = self.next_video(restart);
        StreamWriter { video_stream_seq: stream, video_seq: (seq + 1) as u64, ..self }
    }

    pub open spec fn after_audio(self, restart: bool) -> StreamWriter {
        let (stream, seq) = self.next_audio(restart);
        StreamWriter { audio_stream_seq: stream, audio_seq: (seq + 1) as u64, ..self }
    }

    /// Writes a video frame. `repair` is the number of chunks that are added
    /// for error correction, if there is any. Returns the numbers of the
    /// stream and of the frame, and the messages that carry it.
    pub fn write_video_frame(
        &mut self,
        pts: u64,
        frame: Bytes,
        hierarchical_layer: u32,
        stream_restart: bool,
        repair: Option<u32>,
    ) -> (result: (u64, u64, Vec<MediaChunk>))
        requires
            crate::server::chunk::chunkable(
                crate::bytes_ext::contents(frame).len() as int,
                old(self).chunk_size,
                repair,
            ),
            old(self).video_stream_seq < u64::MAX,
            old(self).video_seq < u64::MAX,
        ensures
            (result.0, result.1) == old(self).next_video(stream_restart),
            exists|chunks: Seq<Chunk>|
                #![trigger crate::server::chunk::chunks_of(
                    chunks,
                    crate::bytes_ext::contents(frame),
                    old(self).chunk_size,
                    repair,
                )]
                crate::server::chunk::chunks_of(
                    chunks,
                    crate::bytes_ext::contents(frame),
                    old(self).chunk_size,
                    repair,
                ) && messages_for(
                    result.2@,
                    chunks,
                    old(self).session_id,
                    old(self).attachment_id,
                    result.0,
                    result.1,
                    hierarchical_layer,
                    pts,
                ),
            *final(self) == old(self).after_video(stream_restart),
    {
        if stream_restart {
            self.video_stream_seq = self.video_stream_seq + 1;
            self.video_seq = 0;
        }
        let seq: u64 = self.video_seq;
        let chunks = iter_chunks(frame, self.chunk_size, repair);
        let messages = chunk_messages(
            chunks,
            self.session_id,
            self.attachment_id,
            self.video_stream_seq,
            seq,
            hierarchical_layer,
            pts,
        );
        self.video_seq = self.video_seq + 1;
        (self.video_stream_seq, seq, messages)
    }

    /// Writes an audio frame, without error correction.
    pub fn write_audio_frame(&mut self, pts: u64, frame: Bytes, stream_restart: bool) -> (result: (
        u64,
        u64,
        Vec<MediaChunk>,
    ))
        requires
            crate::server::chunk::chunkable(
                crate::bytes_ext::contents(frame).len() as int,
                old(self).chunk_size,
                None,
            ),
            old(self).audio_stream_seq < u64::MAX,
            old(self).audio_seq < u64::MAX,
        ensures
            (result.0, result.1) == old(self).next_audio(stream_restart),
            exists|chunks: Seq<Chunk>|
                #![trigger crate::server::chunk::chunks_of(
                    chunks,
                    crate::bytes_ext::contents(frame),
                    old(self).chunk_size,
                    None,
                )]
                crate::server::chunk::chunks_of(
                    chunks,
                    crate::bytes_ext::contents(frame),
                    old(self).chunk_size,
                    None,
                ) && messages_for(
                    result.2@,
                    chunks,
                    old(self).session_id,
                    old(self).attachment_id,
                    result.0,
                    result.1,
                    0,
                    pts,
                ),
            *final(self) == old(self).after_audio(stream_restart),
    {
        if stream_restart {
            self.audio_stream_seq = self.audio_stream_seq + 1;
            self.audio_seq = 0;
        }
        let seq: u64 = self.audio_seq;
        let chunks = iter_chunks(frame, self.chunk_size, None);
        let messages = chunk_messages(
            chunks,
            self.session_id,
            self.attachment_id,
            self.audio_stream_seq,
            seq,
            0,
            pts,
        );
        self.audio_seq = self.audio_seq + 1;
        (self.audio_stream_seq, seq, messages)
    }
}

/// Frames are numbered from zero within a stream, and a stream that restarts
/// gets the next number: no two video frames of a writer share both.
pub proof fn video_numbers_grow(writer: StreamWriter, first_restart: bool, second_restart: bool)
    requires
        writer.video_stream_seq < u64::MAX - 1,
        writer.video_seq < u64::MAX,
    ensures
        ({
            let (stream, seq) = writer.next_video(first_restart);
            let after = writer.after_video(first_restart);
            let (next_stream, next_seq) = after.next_video(second_restart);
            &&& next_stream > stream || (next_stream == stream && next_seq == seq + 1)
            &&& second_restart <==> next_stream > stream
            &&& second_restart ==> next_seq == 0
        }),
{
}

/// Audio frames are numbered in the same way, and apart from video frames.
pub proof fn audio_numbers_grow(writer: StreamWriter, first_restart: bool, second_restart: bool)
    requires
        writer.audio_stream_seq < u64::MAX - 1,
        writer.audio_seq < u64::MAX,
    ensures
        ({
            let (stream, seq) = writer.next_audio(first_restart);
            let after = writer.after_audio(first_restart);
            let (next_stream, next_seq) = after.next_audio(second_restart);
            &&& next_stream > stream || (next_stream == stream && next_seq == seq + 1)
            &&& second_restart <==> next_stream > stream
            &&& second_restart ==> next_seq == 0
            &&& after.video_seq == writer.video_seq && after.video_stream_seq
                == writer.video_stream_seq
            &&& after.session_id == writer.session_id && after.attachment_id
                == writer.attachment_id && after.chunk_size == writer.chunk_size
        }),
        writer.after_video(first_restart).audio_seq == writer.audio_seq,
        writer.after_video(first_restart).audio_stream_seq == writer.audio_stream_seq,
        writer.after_video(first_restart).session_id == writer.session_id,
        writer.after_video(first_restart).attachment_id == writer.attachment_id,
        writer.after_video(first_restart).chunk_size == writer.chunk_size,
{
}

/// A stream that goes on takes the numbers up where they were left; one that
/// restarts gets the next number for itself, and zero for its first frame.
pub proof fn restarted_stream_has_next_number(writer: StreamWriter, restart: bool)
    requires
        writer.video_stream_seq < u64::MAX,
        writer.audio_stream_seq < u64::MAX,
    ensures
        !restart ==> writer.next_video(restart) == (writer.video_stream_seq, writer.video_seq),
        !restart ==> writer.next_audio(restart) == (writer.audio_stream_seq, writer.audio_seq),
        restart ==> writer.next_video(restart).0 == writer.video_stream_seq + 1
            && writer.next_video(restart).1 == 0,
        restart ==> writer.next_audio(restart).0 == writer.audio_stream_seq + 1
            && writer.next_audio(restart).1 == 0,
{
}

/// The data of messages, one after the other.
pub open spec fn joined_messages(messages: Seq<MediaChunk>) -> Seq<u8>
    decreases messages.len(),
{
    if messages.len() == 0 {
        Seq::empty()
    } else {
        joined_messages(messages.drop_last()) + crate::bytes_ext::contents(messages.last().data)
    }
}

/// Messages carry chunks in order, and each says which frame it is a part of,
/// and which part.
pub proof fn messages_carry_chunks(
    messages: Seq<MediaChunk>,
    chunks: Seq<Chunk>,
    session_id: u64,
    attachment_id: u64,
    stream_seq: u64,
    seq: u64,
    layer: u32,
    pts: u64,
)
    requires
        messages_for(
            messages,
            chunks,
            session_id,
            attachment_id,
            stream_seq,
            seq,
            layer,
            pts,
        ),
    ensures
        messages.len() == chunks.len(),
        joined_messages(messages) == crate::server::chunk::joined(chunks),
        forall|i: int|
            0 <= i < messages.len() ==> {
                &&& (#[trigger] messages[i]).session_id == session_id
                &&& messages[i].attachment_id == attachment_id
                &&& messages[i].stream_seq == stream_seq
                &&& messages[i].seq == seq
                &&& messages[i].hierarchical_layer == layer
                &&& messages[i].timestamp == pts
                &&& messages[i].chunk == chunks[i].index
                &&& messages[i].num_chunks == chunks[i].num_chunks
                &&& messages[i].data == chunks[i].data
                &&& messages[i].fec_metadata == chunks[i].fec_metadata
            },
    decreases messages.len(),
{
    if messages.len() > 0 {
        let n = messages.len() - 1;
        let init = messages.drop_last();
        let parts = chunks.drop_last();
        assert forall|i: int| 0 <= i < parts.len() implies #[trigger] init[i] == (MediaChunk {
            session_id,
            attachment_id,
            stream_seq,
            seq,
            data: parts[i].data,
            chunk: parts[i].index,
            num_chunks: parts[i].num_chunks,
            hierarchical_layer: layer,
            timestamp: pts,
            fec_metadata: parts[i].fec_metadata,
        }) by {
            assert(init[i] == messages[i]);
        }
        messages_carry_chunks(
            init,
            parts,
            session_id,
            attachment_id,
            stream_seq,
            seq,
            layer,
            pts,
        );
        assert(messages[n].data == chunks[n].data);
    }
}

/// A layer has the error correction that is configured for it, and layers beyond
/// those have none.
pub proof fn layers_have_their_ratio(writer: StreamWriter, layer: u32)
    ensures
        layer < writer.fec_ratios@.len() ==> writer.spec_fec_ratio(layer)
            == writer.fec_ratios@[layer as int],
        layer >= writer.fec_ratios@.len() ==> writer.spec_fec_ratio(layer) == 0,
{
}

/// A new writer belongs to its session and its attachment, has sent nothing, and
/// leaves room in each datagram.
pub proof fn new_writer_has_sent_nothing(
    session_id: u64,
    attachment_id: u64,
    fec_ratios: Vec<u32>,
    max_dgram_len: usize,
    writer: StreamWriter,
)
    requires
        max_dgram_len >= CHUNK_HEADROOM,
        call_ensures(
            StreamWriter::new,
            (session_id, attachment_id, fec_ratios, max_dgram_len),
            writer,
        ),
    ensures
        writer.session_id == session_id,
        writer.attachment_id == attachment_id,
        writer.fec_ratios == fec_ratios,
        writer.max_dgram_len == max_dgram_len,
        writer.chunk_size + CHUNK_HEADROOM == max_dgram_len,
        writer.audio_seq == 0 && writer.video_seq == 0,
        writer.audio_stream_seq == 0 && writer.video_stream_seq == 0,
{
}

} // verus!
