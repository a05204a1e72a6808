//! Playback streams: their buffers, and what each tick of the clock does.

use vstd::prelude::*;
use crate::math::next_multiple_of;

verus! {

/// Samples are handed to the encoder at this rate.
pub const CAPTURE_SAMPLE_RATE: u32 = 48000;

pub const CAPTURE_CHANNEL_COUNT: u32 = 2;

/// The clock ticks every 10 ms, which is the smallest Opus frame.
pub const CLOCK_RATE_HZ: u32 = 100;

/// The samples that the encoder gets with each tick, over all channels.
pub fn samples_per_tick() -> (samples: u32)
    ensures
        samples * CLOCK_RATE_HZ == CAPTURE_SAMPLE_RATE * CAPTURE_CHANNEL_COUNT,
{
    CAPTURE_SAMPLE_RATE / CLOCK_RATE_HZ * CAPTURE_CHANNEL_COUNT
}

#[derive(Debug, Clone, Copy, PartialEq, Eq, Structural)]
pub enum SampleFormat {
    Invalid,
    U8,
    Alaw,
    Ulaw,
    S16Le,
    S16Be,
    Float32Le,
    Float32Be,
    S32Le,
    S32Be,
    S24Le,
    S24Be,
    S24In32Le,
    S24In32Be,
}

impl SampleFormat {
    pub open spec fn sample_size(self) -> nat {
        match self {
            SampleFormat::Invalid => 0,
            SampleFormat::U8 | SampleFormat::Alaw | SampleFormat::Ulaw => 1,
            SampleFormat::S16Le | SampleFormat::S16Be => 2,
            SampleFormat::S24Le | SampleFormat::S24Be => 3,
            _ => 4,
        }
    }

    pub fn bytes_per_sample(&self) -> (size: u32)
        ensures
            size == self.sample_size(),
    {
        match self {
            SampleFormat::Invalid => 0,
            SampleFormat::U8 | SampleFormat::Alaw | SampleFormat::Ulaw => 1,
            SampleFormat::S16Le | SampleFormat::S16Be => 2,
            SampleFormat::S24Le | SampleFormat::S24Be => 3,
            _ => 4,
        }
    }
}

#[derive(Debug, Clone, Copy, PartialEq, Eq, Structural)]
pub struct SampleSpec {
    pub format: SampleFormat,
    pub channels: u8,
    pub sample_rate: u32,
}

impl SampleSpec {
    /// The bytes of one sample of each channel.
    pub open spec fn frame_size(self) -> int {
        (self.channels * self.format.sample_size()) as int
    }

    /// The bytes of 10 ms.
    pub open spec fn len_10ms(self) -> u32 {
        (self.frame_size() * self.sample_rate / 100) as u32
    }

    fn lengths(&self) -> (lengths: (u32, u32))
        ensures
            lengths.0 == self.frame_size(),
            lengths.1 == self.len_10ms(),
            lengths.0 <= 1020,
    {
        let sample_size: u32 = self.format.bytes_per_sample();
        assert(self.channels * sample_size <= 255 * 4) by (nonlinear_arith)
            requires
                self.channels <= 255,
                sample_size <= 4,
        ;
        let frame_size: u32 = self.channels as u32 * sample_size;
        assert(frame_size * self.sample_rate <= 1020 * 0xffff_ffff) by (nonlinear_arith)
            requires
                frame_size <= 1020,
                self.sample_rate <= 0xffff_ffff,
        ;
        (frame_size, (frame_size as u64 * self.sample_rate as u64 / 100) as u32)
    }
}

/// The lengths of a buffer, in bytes. The largest number means that the server
/// chooses.
#[derive(Debug, Clone, Copy, PartialEq, Eq, Structural)]
pub struct BufferAttr {
    pub max_length: u32,
    pub target_length: u32,
    pub pre_buffering: u32,
    pub minimum_request_length: u32,
    pub fragment_size: u32,
}

pub open spec fn min_of(a: int, b: int) -> int {
    if a <= b {
        a
    } else {
        b
    }
}

pub open spec fn max_of(a: int, b: int) -> int {
    if a >= b {
        a
    } else {
        b
    }
}

pub open spec fn round_up(n: int, d: int) -> int {
    crate::math::next_multiple(n, d)
}

/// 200 ms, or what the client asks for, if that is less.
pub open spec fn chosen_max_length(attr: BufferAttr, spec: SampleSpec) -> int {
    if attr.max_length == u32::MAX {
        spec.len_10ms() * 20
    } else {
        min_of(round_up(attr.max_length as int, spec.frame_size()), spec.len_10ms() * 20)
    }
}

/// At least 5 ms, which is also the default.
pub open spec fn chosen_request_length(attr: BufferAttr, spec: SampleSpec) -> int {
    if attr.minimum_request_length == u32::MAX {
        round_up(spec.len_10ms() as int / 2, spec.frame_size())
    } else {
        max_of(
            round_up(attr.minimum_request_length as int, spec.frame_size()),
            spec.len_10ms() as int / 2,
        )
    }
}

/// By default 20 ms; otherwise at least 10 ms and two requests. The maximum is
/// exceeded only to make room for two requests.
pub open spec fn chosen_target_length(attr: BufferAttr, spec: SampleSpec) -> int {
    let request = chosen_request_length(attr, spec);
    let max_length = chosen_max_length(attr, spec);
    if attr.target_length == u32::MAX {
        min_of(round_up(spec.len_10ms() * 2, request), max_length)
    } else {
        let wanted = min_of(
            max_of(round_up(attr.target_length as int, request), spec.len_10ms() as int),
            max_length,
        );
        max_of(wanted, request * 2)
    }
}

/// By default as much as the target, and never more.
pub open spec fn chosen_pre_buffering(attr: BufferAttr, spec: SampleSpec) -> int {
    let target = chosen_target_length(attr, spec);
    if attr.pre_buffering == u32::MAX {
        target
    } else {
        min_of(round_up(attr.pre_buffering as int, chosen_request_length(attr, spec)), target)
    }
}

/// The lengths that are chosen for a stream can be computed.
pub open spec fn configurable(attr: BufferAttr, spec: SampleSpec) -> bool {
    let request = chosen_request_length(attr, spec);
    let frame = spec.frame_size();
    &&& frame > 0
    &&& request > 0
    &&& spec.len_10ms() * 20 <= u32::MAX
    &&& attr.max_length != u32::MAX ==> round_up(attr.max_length as int, frame) <= u32::MAX
    &&& if attr.minimum_request_length == u32::MAX {
        round_up(spec.len_10ms() as int / 2, frame) <= u32::MAX
    } else {
        round_up(attr.minimum_request_length as int, frame) <= u32::MAX
    }
    &&& if attr.target_length == u32::MAX {
        round_up(spec.len_10ms() * 2, request) <= u32::MAX
    } else {
        round_up(attr.target_length as int, request) <= u32::MAX && request * 2 <= u32::MAX
    }
    &&& attr.pre_buffering != u32::MAX ==> round_up(attr.pre_buffering as int, request) <= u32::MAX
}

/// Rounds up to a multiple, whatever it is.
fn rounded(n: u32, d: u64) -> (multiple: u64)
    requires
        0 < d <= 0x2_0000_0000,
    ensures
        multiple == round_up(n as int, d as int),
        multiple < n + d,
{
    proof {
        crate::math::lemma_next_multiple(n as int, d as int);
    }
    let rem: u64 = n as u64 % d;
    if rem == 0 {
        n as u64
    } else {
        n as u64 + (d - rem)
    }
}

/// Whether the lengths can be computed.
pub fn is_configurable(attr: &BufferAttr, spec: &SampleSpec) -> (possible: bool)
    ensures
        possible == configurable(*attr, *spec),
{
    let (frame_size, len_10ms) = spec.lengths();
    if frame_size == 0 || len_10ms > u32::MAX / 20 {
        return false;
    }
    let limit: u64 = u32::MAX as u64;
    let chosen: bool = attr.minimum_request_length != u32::MAX;
    let wanted: u32 = if chosen {
        attr.minimum_request_length
    } else {
        len_10ms / 2
    };
    let rounded_request: u64 = rounded(wanted, frame_size as u64);
    let request: u64 = if chosen && rounded_request < (len_10ms / 2) as u64 {
        (len_10ms / 2) as u64
    } else {
        rounded_request
    };
    assert(request == chosen_request_length(*attr, *spec));
    if request == 0 || rounded_request > limit {
        return false;
    }
    if attr.max_length != u32::MAX && rounded(attr.max_length, frame_size as u64) > limit {
        return false;
    }
    if attr.target_length == u32::MAX {
        if rounded(len_10ms * 2, request) > limit {
            return false;
        }
    } else if rounded(attr.target_length, request) > limit || request * 2 > limit {
        return false;
    }
    attr.pre_buffering == u32::MAX || rounded(attr.pre_buffering, request) <= limit
}

fn smaller(a: u32, b: u32) -> (m: u32)
    ensures
        m == min_of(a as int, b as int),
{
    if a <= b {
        a
    } else {
        b
    }
}

fn larger(a: u32, b: u32) -> (m: u32)
    ensures
        m == max_of(a as int, b as int),
{
    if a >= b {
        a
    } else {
        b
    }
}

/// Sets the lengths that the client left to the server, and puts the others
/// into their limits.
pub fn configure_buffer(attr: &mut BufferAttr, spec: &SampleSpec)
    requires
        configurable(*old(attr), *spec),
    ensures
        *final(attr) == (BufferAttr {
            max_length: chosen_max_length(*old(attr), *spec) as u32,
            minimum_request_length: chosen_request_length(*old(attr), *spec) as u32,
            target_length: chosen_target_length(*old(attr), *spec) as u32,
            pre_buffering: chosen_pre_buffering(*old(attr), *spec) as u32,
            fragment_size: old(attr).fragment_size,
        }),
{
    let (frame_size, len_10ms) = spec.lengths();
    if attr.max_length == u32::MAX {
        attr.max_length = len_10ms * 20;
    } else {
        attr.max_length = smaller(next_multiple_of(attr.max_length, frame_size), len_10ms * 20);
    }
    if attr.minimum_request_length == u32::MAX {
        attr.minimum_request_length = next_multiple_of(len_10ms / 2, frame_size);
    } else {
        attr.minimum_request_length = larger(
            next_multiple_of(attr.minimum_request_length, frame_size),
            len_10ms / 2,
        );
    }
    let request: u32 = attr.minimum_request_length;
    if attr.target_length == u32::MAX {
        attr.target_length = smaller(next_multiple_of(len_10ms * 2, request), attr.max_length);
    } else {
        attr.target_length = smaller(
            larger(next_multiple_of(attr.target_length, request), len_10ms),
            attr.max_length,
        );
        if attr.target_length < request * 2 {
            attr.target_length = request * 2;
        }
    }
    if attr.pre_buffering == u32::MAX {
        attr.pre_buffering = attr.target_length;
    } else {
        attr.pre_buffering = smaller(
            next_multiple_of(attr.pre_buffering, request),
            attr.target_length,
        );
    }
}

/// Playback never waits for more than the target length, which has room for
/// two requests where the client chose it; no buffer is longer than 200 ms, nor
/// longer than a client asks for by more than a part of a frame.
pub proof fn configured_lengths_are_ordered(attr: BufferAttr, spec: SampleSpec)
    requires
        configurable(attr, spec),
    ensures
        chosen_pre_buffering(attr, spec) <= chosen_target_length(attr, spec),
        chosen_max_length(attr, spec) <= spec.len_10ms() * 20,
        attr.max_length != u32::MAX ==> chosen_max_length(attr, spec) < attr.max_length
            + spec.frame_size(),
        chosen_request_length(attr, spec) >= spec.len_10ms() / 2,
        attr.target_length != u32::MAX ==> chosen_target_length(attr, spec) >= 2
            * chosen_request_length(attr, spec),
{
    crate::math::lemma_next_multiple(spec.len_10ms() as int / 2, spec.frame_size());
    crate::math::lemma_next_multiple(attr.max_length as int, spec.frame_size());
}

/// The target length is a whole number of requests, unless it is as long as
/// the buffer may be, or as short as it may be.
pub proof fn target_is_whole_requests(attr: BufferAttr, spec: SampleSpec)
    requires
        configurable(attr, spec),
    ensures
        ({
            let target = chosen_target_length(attr, spec);
            ||| target % chosen_request_length(attr, spec) == 0
            ||| target == chosen_max_length(attr, spec)
            ||| target == spec.len_10ms()
        }),
{
    let request = chosen_request_length(attr, spec);
    crate::math::lemma_next_multiple(spec.len_10ms() * 2, request);
    crate::math::lemma_next_multiple(attr.target_length as int, request);
    vstd::arithmetic::div_mod::lemma_mod_multiples_basic(2, request);
}

#[derive(Debug, Clone, Copy, PartialEq, Eq, Structural)]
pub enum StreamState {
    /// The number of bytes that are missing before playback starts.
    Prebuffering(u64),
    Corked,
    Playing,
    /// The number of the request to drain, which is answered at the end.
    Draining(u32),
}

/// A playback stream. The samples themselves are in a buffer of the caller.
#[derive(Debug, Clone, Copy, PartialEq, Eq, Structural)]
pub struct PlaybackStream {
    pub state: StreamState,
    pub buffer_attr: BufferAttr,
    pub requested_bytes: usize,
    pub played_bytes: u64,
    pub write_offset: u64,
    pub read_offset: u64,
}

/// What a client is told of its streams.
#[derive(Debug, Clone, Copy, PartialEq, Eq, Structural)]
pub enum StreamMessage {
    Request { channel: u32, length: u32 },
    Started { channel: u32 },
    Overflow { length: u32 },
    Underflow { channel: u32 },
    Ack { seq: u32 },
}

#[derive(Debug, Clone, Copy, PartialEq, Eq, Structural)]
pub enum WriteError {
    InvalidChannel,
    SeekNotSupported,
}

pub open spec fn saturating(a: int, b: int) -> int {
    if a > b {
        a - b
    } else {
        0
    }
}

/// How many bytes of a write fit into the buffer.
pub open spec fn accepted_bytes(stream: PlaybackStream, buffer_len: usize, len: usize) -> int {
    min_of(len as int, saturating(stream.buffer_attr.max_length as int, buffer_len as int))
}

/// How many do not.
pub open spec fn overflowing_bytes(stream: PlaybackStream, buffer_len: usize, len: usize) -> int {
    len - accepted_bytes(stream, buffer_len, len)
}

/// A stream, once bytes were written to it.
pub open spec fn written(stream: PlaybackStream, buffer_len: usize, len: usize) -> PlaybackStream {
    let accepted = accepted_bytes(stream, buffer_len, len);
    PlaybackStream {
        state: match stream.state {
            StreamState::Prebuffering(n) => if n > accepted {
                StreamState::Prebuffering((n - accepted) as u64)
            } else {
                StreamState::Playing
            },
            other => other,
        },
        requested_bytes: saturating(stream.requested_bytes as int, accepted) as usize,
        write_offset: (stream.write_offset + accepted) as u64,
        ..stream
    }
}

/// What a client is told of a write: how much was too much, and that playback
/// starts.
pub open spec fn write_messages(
    stream: PlaybackStream,
    channel: u32,
    buffer_len: usize,
    len: usize,
) -> Seq<StreamMessage> {
    let overflow = overflowing_bytes(stream, buffer_len, len);
    let first = if overflow > 0 {
        seq![StreamMessage::Overflow { length: overflow as u32 }]
    } else {
        Seq::empty()
    };
    if stream.state matches StreamState::Prebuffering(n) && n <= accepted_bytes(
        stream,
        buffer_len,
        len,
    ) {
        first.push(StreamMessage::Started { channel })
    } else {
        first
    }
}

impl PlaybackStream {
    /// A new stream. It starts once it has buffered enough, unless there is
    /// nothing to wait for or the client wants to start it.
    pub open spec fn spec_new(attr: BufferAttr, start_corked: bool) -> PlaybackStream {
        PlaybackStream {
            state: if attr.pre_buffering == 0 || start_corked {
                StreamState::Corked
            } else {
                StreamState::Prebuffering(attr.pre_buffering as u64)
            },
            buffer_attr: attr,
            requested_bytes: attr.target_length as usize,
            played_bytes: 0,
            write_offset: 0,
            read_offset: 0,
        }
    }

    pub fn new(attr: BufferAttr, start_corked: bool) -> (stream: PlaybackStream)
        ensures
            stream == PlaybackStream::spec_new(attr, start_corked),
    {
        PlaybackStream {
            state: if attr.pre_buffering == 0 || start_corked {
                StreamState::Corked
            } else {
                StreamState::Prebuffering(attr.pre_buffering as u64)
            },
            buffer_attr: attr,
            requested_bytes: attr.target_length as usize,
            played_bytes: 0,
            write_offset: 0,
            read_offset: 0,
        }
    }

    /// Takes a write of `len` bytes, while the buffer holds `buffer_len`.
    /// Returns how many of them go into the buffer.
    pub fn write(&mut self, channel: u32, buffer_len: usize, len: usize) -> (result: (
        usize,
        Vec<StreamMessage>,
    ))
        requires
            old(self).write_offset + len <= u64::MAX,
        ensures
            result.0 == accepted_bytes(*old(self), buffer_len, len),
            result.1@ == write_messages(*old(self), channel, buffer_len, len),
            *final(self) == written(*old(self), buffer_len, len),
    {
        let mut messages: Vec<StreamMessage> = Vec::new();
        let max_length: usize = self.buffer_attr.max_length as usize;
        let remaining: usize = if max_length > buffer_len {
            max_length - buffer_len
        } else {
            0
        };
        let accepted: usize = if len > remaining {
            messages.push(StreamMessage::Overflow { length: (len - remaining) as u32 });
            remaining
        } else {
            len
        };
        if let StreamState::Prebuffering(n) = self.state {
            if n > accepted as u64 {
                self.state = StreamState::Prebuffering(n - accepted as u64);
            } else {
                messages.push(StreamMessage::Started { channel });
                self.state = StreamState::Playing;
            }
        }
        self.requested_bytes =
        if self.requested_bytes > accepted {
            self.requested_bytes - accepted
        } else {
            0
        };
        self.write_offset = self.write_offset + accepted as u64;
        assert(messages@ =~= write_messages(*old(self), channel, buffer_len, len));
        (accepted, messages)
    }
}

/// Writes never fill a buffer beyond its maximum.
pub proof fn write_stays_in_buffer(stream: PlaybackStream, buffer_len: usize, len: usize)
    requires
        buffer_len <= stream.buffer_attr.max_length,
    ensures
        buffer_len + accepted_bytes(stream, buffer_len, len) <= stream.buffer_attr.max_length,
        accepted_bytes(stream, buffer_len, len) + overflowing_bytes(stream, buffer_len, len)
            == len,
{
}

/// How full the buffer of a stream is at a tick of the clock: before, and, if
/// there was enough to play, after a tick's worth was taken out.
#[derive(Debug, Clone, Copy, PartialEq, Eq, Structural)]
pub struct BufferLevel {
    pub channel: u32,
    pub before: usize,
    pub after: Option<usize>,
}

pub open spec fn plays(state: StreamState) -> bool {
    state is Playing || state is Draining
}

/// A stream that ran out of samples.
pub open spec fn underrun(stream: PlaybackStream, level: BufferLevel) -> bool {
    plays(stream.state) && level.after is None
}

/// A stream, once a tick's worth was played.
pub open spec fn played(stream: PlaybackStream, level: BufferLevel) -> PlaybackStream {
    if plays(stream.state) {
        let read = level.before - level.after->0;
        PlaybackStream {
            read_offset: (stream.read_offset + read) as u64,
            played_bytes: (stream.played_bytes + read) as u64,
            ..stream
        }
    } else {
        stream
    }
}

/// How full the buffer is when the next write is requested.
pub open spec fn level_now(stream: PlaybackStream, level: BufferLevel) -> int {
    if plays(stream.state) {
        level.after->0 as int
    } else {
        level.before as int
    }
}

/// The bytes that are requested to fill the buffer, if any.
pub open spec fn to_request(stream: PlaybackStream, level: BufferLevel) -> int {
    let needed = saturating(
        stream.buffer_attr.target_length as int,
        level_now(stream, level) + stream.requested_bytes,
    );
    if (stream.state is Playing || stream.state is Corked) && needed
        >= stream.buffer_attr.minimum_request_length {
        needed
    } else {
        -1
    }
}

/// A stream, after a tick of the clock. On an underrun playback waits for the
/// buffer to fill again, if it did so at the start.
pub open spec fn ticked(stream: PlaybackStream, level: BufferLevel) -> PlaybackStream {
    if underrun(stream, level) {
        PlaybackStream {
            state: if stream.buffer_attr.pre_buffering > 0 && stream.state is Playing {
                StreamState::Prebuffering(stream.buffer_attr.pre_buffering as u64)
            } else {
                stream.state
            },
            ..stream
        }
    } else {
        let request = to_request(stream, level);
        PlaybackStream {
            requested_bytes: if request >= 0 {
                (stream.requested_bytes + request) as usize
            } else {
                stream.requested_bytes
            },
            ..played(stream, level)
        }
    }
}

/// What a client is told of a stream at a tick.
pub open spec fn tick_messages(stream: PlaybackStream, level: BufferLevel) -> Seq<StreamMessage> {
    if underrun(stream, level) {
        seq![StreamMessage::Underflow { channel: level.channel }]
    } else if to_request(stream, level) >= 0 {
        seq![
            StreamMessage::Request {
                channel: level.channel,
                length: to_request(stream, level) as u32,
            },
        ]
    } else {
        Seq::empty()
    }
}

/// A stream that was to be drained, and is.
pub open spec fn drained(stream: PlaybackStream, level: BufferLevel) -> bool {
    stream.state is Draining && level.after == Some(0usize)
}

/// The levels and the counters of a stream leave room for a tick.
pub open spec fn can_tick(stream: PlaybackStream, level: BufferLevel) -> bool {
    &&& level.after is Some ==> level.after->0 <= level.before
    &&& level.before + stream.requested_bytes <= usize::MAX
    &&& stream.requested_bytes + stream.buffer_attr.target_length <= usize::MAX
    &&& stream.read_offset + level.before <= u64::MAX
    &&& stream.played_bytes + level.before <= u64::MAX
}

impl PlaybackStream {
    /// One tick of the clock. Returns true if the stream is done.
    pub fn tick(&mut self, level: BufferLevel) -> (result: (bool, Vec<StreamMessage>))
        requires
            can_tick(*old(self), level),
        ensures
            result.0 == drained(*old(self), level),
            result.1@ == tick_messages(*old(self), level),
            *final(self) == ticked(*old(self), level),
    {
        let mut messages: Vec<StreamMessage> = Vec::new();
        let mut done = false;
        let mut now: usize = level.before;
        let playing = match self.state {
            StreamState::Playing => true,
            StreamState::Draining(_) => true,
            _ => false,
        };
        if playing {
            match level.after {
                None => {
                    messages.push(StreamMessage::Underflow { channel: level.channel });
                    if self.buffer_attr.pre_buffering > 0 && self.state == StreamState::Playing {
                        self.state = StreamState::Prebuffering(
                            self.buffer_attr.pre_buffering as u64,
                        );
                    }
                    assert(messages@ =~= tick_messages(*old(self), level));
                    return (false, messages);
                },
                Some(after) => {
                    let read: usize = level.before - after;
                    now = after;
                    self.read_offset = self.read_offset + read as u64;
                    self.played_bytes = self.played_bytes + read as u64;
                    if let StreamState::Draining(_) = self.state {
                        done = after == 0;
                    }
                },
            }
        }
        let target: usize = self.buffer_attr.target_length as usize;
        let have: usize = now + self.requested_bytes;
        let needed: usize = if target > have {
            target - have
        } else {
            0
        };
        let wants = match self.state {
            StreamState::Playing => true,
            StreamState::Corked => true,
            _ => false,
        };
        if wants && needed >= self.buffer_attr.minimum_request_length as usize {
            self.requested_bytes = self.requested_bytes + needed;
            messages.push(
                StreamMessage::Request { channel: level.channel, length: needed as u32 },
            );
        }
        assert(messages@ =~= tick_messages(*old(self), level));
        (done, messages)
    }

    /// Stops a stream, or starts it again. Returns the request for what is
    /// missing in the buffer, if playback has to wait for it.
    pub fn cork(&mut self, channel: u32, cork: bool, buffer_len: usize) -> (request: Option<
        StreamMessage,
    >)
        ensures
            *final(self) == corked(*old(self), cork, buffer_len),
            request == cork_request(*old(self), channel, cork, buffer_len),
    {
        match self.state {
            StreamState::Corked => {
                if !cork {
                    let have: u32 = buffer_len as u32;
                    let needed: u32 = if self.buffer_attr.target_length > have {
                        self.buffer_attr.target_length - have
                    } else {
                        0
                    };
                    if needed > 0 {
                        self.requested_bytes = needed as usize;
                        self.state = StreamState::Prebuffering(needed as u64);
                        return Some(StreamMessage::Request { channel, length: needed });
                    } else {
                        self.state = StreamState::Playing;
                    }
                }
                None
            },
            StreamState::Playing => {
                if cork {
                    self.state = StreamState::Corked;
                }
                None
            },
            _ => None,
        }
    }

    /// Forgets what was buffered.
    pub fn flush(&mut self)
        ensures
            *final(self) == flushed(*old(self)),
    {
        self.requested_bytes = 0;
        self.played_bytes = 0;
        self.read_offset = self.write_offset;
    }
}

/// What is missing to the target length.
pub open spec fn missing(stream: PlaybackStream, buffer_len: usize) -> int {
    saturating(stream.buffer_attr.target_length as int, buffer_len as u32 as int)
}

pub open spec fn corked(stream: PlaybackStream, cork: bool, buffer_len: usize) -> PlaybackStream {
    match stream.state {
        StreamState::Corked if !cork => {
            let needed = missing(stream, buffer_len);
            if needed > 0 {
                PlaybackStream {
                    state: StreamState::Prebuffering(needed as u64),
                    requested_bytes: needed as usize,
                    ..stream
                }
            } else {
                PlaybackStream { state: StreamState::Playing, ..stream }
            }
        },
        StreamState::Playing if cork => PlaybackStream { state: StreamState::Corked, ..stream },
        _ => stream,
    }
}

pub open spec fn cork_request(
    stream: PlaybackStream,
    channel: u32,
    cork: bool,
    buffer_len: usize,
) -> Option<StreamMessage> {
    if stream.state is Corked && !cork && missing(stream, buffer_len) > 0 {
        Some(StreamMessage::Request { channel, length: missing(stream, buffer_len) as u32 })
    } else {
        None
    }
}

pub open spec fn flushed(stream: PlaybackStream) -> PlaybackStream {
    PlaybackStream {
        requested_bytes: 0,
        played_bytes: 0,
        read_offset: stream.write_offset,
        ..stream
    }
}

/// What is buffered and what is requested do not exceed the target by a tick's
/// requests.
pub proof fn requests_stay_in_target(stream: PlaybackStream, level: BufferLevel)
    requires
        can_tick(stream, level),
        !underrun(stream, level),
        level_now(stream, level) + stream.requested_bytes <= stream.buffer_attr.target_length,
    ensures
        level_now(stream, level) + ticked(stream, level).requested_bytes
            <= stream.buffer_attr.target_length,
{
}

/// A stream that is corked is not played: a tick leaves its counters alone.
pub proof fn corked_stream_is_not_played(stream: PlaybackStream, level: BufferLevel)
    requires
        stream.state is Corked,
    ensures
        ticked(stream, level).read_offset == stream.read_offset,
        ticked(stream, level).played_bytes == stream.played_bytes,
        ticked(stream, level).state == stream.state,
{
}

/// Something that happens to a stream: bytes are written to it, the clock ticks,
/// or it is stopped or started.
pub enum StreamStep {
    Write { buffer_len: usize, len: usize },
    Tick { level: BufferLevel },
    Cork { cork: bool, buffer_len: usize },
}

/// A stream, after some steps.
pub open spec fn after_steps(stream: PlaybackStream, steps: Seq<StreamStep>) -> PlaybackStream
    decreases steps.len(),
{
    if steps.len() == 0 {
        stream
    } else {
        let before = after_steps(stream, steps.drop_last());
        match steps.last() {
            StreamStep::Write { buffer_len, len } => written(before, buffer_len, len),
            StreamStep::Tick { level } => ticked(before, level),
            StreamStep::Cork { cork, buffer_len } => corked(before, cork, buffer_len),
        }
    }
}

/// The bytes that went into the buffer in some steps.
pub open spec fn bytes_accepted(stream: PlaybackStream, steps: Seq<StreamStep>) -> int
    decreases steps.len(),
{
    if steps.len() == 0 {
        0
    } else {
        let before = after_steps(stream, steps.drop_last());
        bytes_accepted(stream, steps.drop_last()) + match steps.last() {
            StreamStep::Write { buffer_len, len } => accepted_bytes(before, buffer_len, len),
            _ => 0,
        }
    }
}

/// The bytes that were taken out of the buffer and played in some steps.
pub open spec fn bytes_played(stream: PlaybackStream, steps: Seq<StreamStep>) -> int
    decreases steps.len(),
{
    if steps.len() == 0 {
        0
    } else {
        let before = after_steps(stream, steps.drop_last());
        bytes_played(stream, steps.drop_last()) + match steps.last() {
            StreamStep::Tick { level } => if (before.state is Playing || before.state is Draining)
                && level.after is Some {
                level.before - level.after->0
            } else {
                0
            },
            _ => 0,
        }
    }
}

/// Each step is told how much the buffer holds then, and takes out no more.
pub open spec fn steps_agree(stream: PlaybackStream, steps: Seq<StreamStep>) -> bool
    decreases steps.len(),
{
    steps.len() > 0 ==> {
        let init = steps.drop_last();
        let held = bytes_accepted(stream, init) - bytes_played(stream, init);
        &&& steps_agree(stream, init)
        &&& match steps.last() {
            StreamStep::Write { buffer_len, .. } => buffer_len == held,
            StreamStep::Tick { level } => level.before == held && (level.after is Some
                ==> level.after->0 <= level.before),
            StreamStep::Cork { buffer_len, .. } => buffer_len == held,
        }
    }
}

/// Whatever is done with a stream, its write offset is all that it accepted, and
/// its read offset all that was played. The difference is what the buffer holds,
/// which is never negative.
pub proof fn offsets_count_bytes(stream: PlaybackStream, steps: Seq<StreamStep>)
    requires
        steps_agree(stream, steps),
        stream.write_offset == 0,
        stream.read_offset == 0,
        stream.played_bytes == 0,
        bytes_accepted(stream, steps) <= u64::MAX,
    ensures
        ({
            let after = after_steps(stream, steps);
            &&& after.write_offset == bytes_accepted(stream, steps)
            &&& after.read_offset == bytes_played(stream, steps)
            &&& after.played_bytes == bytes_played(stream, steps)
            &&& 0 <= bytes_played(stream, steps) <= bytes_accepted(stream, steps)
            &&& after.write_offset >= after.read_offset
            &&& after.buffer_attr == stream.buffer_attr
        }),
    decreases steps.len(),
{
    if steps.len() > 0 {
        lemma_accepted_grows(stream, steps);
        offsets_count_bytes(stream, steps.drop_last());
    }
}

proof fn lemma_accepted_grows(stream: PlaybackStream, steps: Seq<StreamStep>)
    requires
        steps.len() > 0,
    ensures
        bytes_accepted(stream, steps.drop_last()) <= bytes_accepted(stream, steps),
{
}

/// A write goes into the buffer as far as there is room, and the client is told
/// what did not. What it was asked for is asked for no longer.
pub proof fn write_is_accounted_for(
    stream: PlaybackStream,
    channel: u32,
    buffer_len: usize,
    len: usize,
)
    requires
        stream.write_offset + len <= u64::MAX,
        len <= u32::MAX,
        buffer_len <= stream.buffer_attr.max_length,
    ensures
        ({
            let accepted = accepted_bytes(stream, buffer_len, len);
            let after = written(stream, buffer_len, len);
            let messages = write_messages(stream, channel, buffer_len, len);
            &&& 0 <= accepted <= len
            &&& accepted == len <==> buffer_len + len <= stream.buffer_attr.max_length
            &&& accepted < len ==> buffer_len + accepted == stream.buffer_attr.max_length
            &&& after.write_offset - stream.write_offset == accepted
            &&& after.read_offset == stream.read_offset
            &&& after.played_bytes == stream.played_bytes
            &&& stream.requested_bytes >= accepted ==> stream.requested_bytes
                - after.requested_bytes == accepted
            &&& stream.requested_bytes < accepted ==> after.requested_bytes == 0
            &&& accepted < len ==> messages.len() > 0 && messages[0] == (StreamMessage::Overflow {
                length: (len - accepted) as u32,
            })
            &&& accepted == len ==> forall|i: int|
                0 <= i < messages.len() ==> !(#[trigger] messages[i] is Overflow)
        }),
{
}

/// Playback starts with the write that brings what was waited for, and the
/// client is told; until then, less and less is missing.
pub proof fn playback_starts_when_buffered(
    stream: PlaybackStream,
    channel: u32,
    buffer_len: usize,
    len: usize,
)
    ensures
        ({
            let accepted = accepted_bytes(stream, buffer_len, len);
            let after = written(stream, buffer_len, len);
            let messages = write_messages(stream, channel, buffer_len, len);
            &&& stream.state matches StreamState::Prebuffering(n) ==> {
                &&& after.state is Playing <==> accepted >= n
                &&& accepted < n ==> after.state == StreamState::Prebuffering((n - accepted) as u64)
                &&& messages.contains(StreamMessage::Started { channel }) <==> accepted >= n
            }
            &&& !(stream.state is Prebuffering) ==> after.state == stream.state
                && !messages.contains(StreamMessage::Started { channel })
        }),
{
    let messages = write_messages(stream, channel, buffer_len, len);
    if stream.state is Prebuffering && accepted_bytes(stream, buffer_len, len)
        >= stream.state->Prebuffering_0 {
        assert(messages.last() == StreamMessage::Started { channel });
    }
}

/// What a tick takes out of the buffer is played, and nothing else: of a stream
/// that plays or drains.
pub proof fn tick_plays_what_it_takes(stream: PlaybackStream, level: BufferLevel)
    requires
        can_tick(stream, level),
    ensures
        ({
            let after = ticked(stream, level);
            let playing = stream.state is Playing || stream.state is Draining;
            &&& playing && level.after is Some ==> after.read_offset - stream.read_offset
                == level.before - level.after->0
            &&& after.played_bytes - stream.played_bytes == after.read_offset - stream.read_offset
            &&& !playing || level.after is None ==> after.read_offset == stream.read_offset
            &&& after.write_offset == stream.write_offset
            &&& playing && level.after is Some ==> after.state == stream.state
        }),
{
}

/// A stream that plays and has too little is told so, and waits for its buffer to
/// fill again, if it did so at the start. One that drains goes on.
pub proof fn underrun_is_reported(stream: PlaybackStream, level: BufferLevel)
    ensures
        ({
            let messages = tick_messages(stream, level);
            let playing = stream.state is Playing || stream.state is Draining;
            &&& messages.contains(StreamMessage::Underflow { channel: level.channel }) <==> playing
                && level.after is None
            &&& stream.state is Playing && level.after is None && stream.buffer_attr.pre_buffering
                > 0 ==> ticked(stream, level).state == StreamState::Prebuffering(
                stream.buffer_attr.pre_buffering as u64,
            )
            &&& stream.state is Draining ==> ticked(stream, level).state == stream.state
        }),
{
    if underrun(stream, level) {
        assert(tick_messages(stream, level)[0] == StreamMessage::Underflow {
            channel: level.channel,
        });
    }
}

/// A client is asked for just as much as brings what is buffered and what was
/// asked for to the target length, and never for less than a request. Only
/// streams that play or are stopped ask.
pub proof fn request_fills_to_target(stream: PlaybackStream, level: BufferLevel)
    requires
        can_tick(stream, level),
    ensures
        ({
            let messages = tick_messages(stream, level);
            let after = ticked(stream, level);
            let held: int = match stream.state {
                StreamState::Playing => level.after->0 as int,
                _ => level.before as int,
            };
            let missing = stream.buffer_attr.target_length - held - stream.requested_bytes;
            let room: int = if missing < 0 {
                0
            } else {
                missing
            };
            let asks = (stream.state is Corked || stream.state is Playing && level.after is Some)
                && room >= stream.buffer_attr.minimum_request_length;
            &&& asks ==> messages.len() == 1 && (messages[0] matches StreamMessage::Request {
                channel,
                length,
            } && channel == level.channel && length == room && after.requested_bytes
                == stream.requested_bytes + length)
            &&& !asks ==> after.requested_bytes == stream.requested_bytes
            &&& !asks ==> forall|i: int|
                0 <= i < messages.len() ==> !(#[trigger] messages[i] is Request)
        }),
{
}

/// A stream that drains is done at the tick that empties its buffer, and no other
/// stream ever is.
pub proof fn stream_is_drained_when_empty(stream: PlaybackStream, level: BufferLevel)
    ensures
        drained(stream, level) <==> stream.state is Draining && level.after is Some
            && level.after->0 == 0,
{
}

/// A stream that plays can be stopped; it starts again at once if its buffer is
/// full, and otherwise waits for what is missing, which it asks for. Nothing of
/// what was counted is lost.
pub proof fn cork_stops_and_starts(
    stream: PlaybackStream,
    channel: u32,
    cork: bool,
    buffer_len: usize,
)
    requires
        buffer_len <= u32::MAX,
    ensures
        ({
            let after = corked(stream, cork, buffer_len);
            let request = cork_request(stream, channel, cork, buffer_len);
            &&& cork && stream.state is Playing ==> after.state is Corked && request is None
            &&& cork && stream.state is Corked ==> after == stream && request is None
            &&& !cork && stream.state is Playing ==> after == stream && request is None
            &&& !cork && stream.state is Corked && buffer_len >= stream.buffer_attr.target_length
                ==> after.state is Playing && request is None
            &&& !cork && stream.state is Corked && buffer_len < stream.buffer_attr.target_length
                ==> {
                let missing = stream.buffer_attr.target_length - buffer_len;
                &&& after.state == StreamState::Prebuffering(missing as u64)
                &&& after.requested_bytes == missing
                &&& request == Some(StreamMessage::Request { channel, length: missing as u32 })
            }
            &&& after.write_offset == stream.write_offset
            &&& after.read_offset == stream.read_offset
            &&& after.played_bytes == stream.played_bytes
            &&& stream.state is Draining || stream.state is Prebuffering ==> after == stream
        }),
{
}

/// A stream that is flushed has nothing buffered and nothing asked for.
pub proof fn flush_empties_stream(stream: PlaybackStream)
    ensures
        flushed(stream).write_offset == stream.write_offset,
        flushed(stream).write_offset - flushed(stream).read_offset == 0,
        flushed(stream).requested_bytes == 0,
        flushed(stream).played_bytes == 0,
        flushed(stream).state == stream.state,
        flushed(stream).buffer_attr == stream.buffer_attr,
{
}

/// A new stream waits until it has buffered enough, and is asked to be filled to
/// its target; a client can also start it itself.
pub proof fn new_stream_waits(attr: BufferAttr, start_corked: bool)
    ensures
        ({
            let stream = PlaybackStream::spec_new(attr, start_corked);
            &&& start_corked ==> stream.state is Corked
            &&& !start_corked && attr.pre_buffering > 0 ==> stream.state
                == StreamState::Prebuffering(attr.pre_buffering as u64)
            &&& !(stream.state is Playing)
            &&& stream.requested_bytes == attr.target_length
            &&& stream.write_offset == 0 && stream.read_offset == 0 && stream.played_bytes == 0
            &&& stream.buffer_attr == attr
        }),
{
}

/// The length of a sample follows its format: one byte for the oldest formats,
/// two, three or four for those that say so.
pub proof fn samples_have_their_length(format: SampleFormat)
    ensures
        format.sample_size() == 0 <==> format == SampleFormat::Invalid,
        format.sample_size() == 1 <==> format == SampleFormat::U8 || format == SampleFormat::Alaw
            || format == SampleFormat::Ulaw,
        format.sample_size() == 2 <==> format == SampleFormat::S16Le || format
            == SampleFormat::S16Be,
        format.sample_size() == 3 <==> format == SampleFormat::S24Le || format
            == SampleFormat::S24Be,
        format.sample_size() <= 4,
{
}

/// A hundred times ten milliseconds are a second of all channels, but for what
/// is rounded off.
pub proof fn ten_milliseconds_are_a_hundredth(spec: SampleSpec)
    requires
        spec.channels * spec.format.sample_size() * spec.sample_rate <= u32::MAX,
    ensures
        100 * spec.len_10ms() <= spec.channels * spec.format.sample_size() * spec.sample_rate < 100
            * spec.len_10ms() + 100,
{
    let total = spec.channels * spec.format.sample_size() * spec.sample_rate;
    assert(total >= 0) by (nonlinear_arith)
        requires
            total == spec.channels * spec.format.sample_size() * spec.sample_rate,
            spec.channels >= 0,
            spec.format.sample_size() >= 0,
            spec.sample_rate >= 0,
    ;
}

/// The lengths that are chosen are whole frames where a client asks for some:
/// the least that are not below what it asks for, or the limit.
pub proof fn asked_lengths_are_met(attr: BufferAttr, spec: SampleSpec)
    requires
        configurable(attr, spec),
        attr.max_length != u32::MAX,
        attr.minimum_request_length != u32::MAX,
    ensures
        ({
            let max = chosen_max_length(attr, spec);
            let request = chosen_request_length(attr, spec);
            let frame = spec.frame_size();
            &&& max == spec.len_10ms() * 20 || attr.max_length <= max < attr.max_length + frame
                && max % frame == 0
            &&& max <= spec.len_10ms() * 20
            &&& attr.minimum_request_length <= request
            &&& request == spec.len_10ms() / 2 || request < attr.minimum_request_length + frame
                && request % frame == 0
        }),
{
    crate::math::lemma_next_multiple(attr.max_length as int, spec.frame_size());
    crate::math::lemma_next_multiple(attr.minimum_request_length as int, spec.frame_size());
}

/// What a client leaves to the server is 200 ms of buffer, 5 ms for a request, and
/// 20 ms to aim at and to wait for, each rounded up.
pub proof fn default_lengths(attr: BufferAttr, spec: SampleSpec)
    requires
        configurable(attr, spec),
        attr.max_length == u32::MAX,
        attr.minimum_request_length == u32::MAX,
        attr.target_length == u32::MAX,
        attr.pre_buffering == u32::MAX,
    ensures
        chosen_max_length(attr, spec) == 20 * spec.len_10ms(),
        spec.len_10ms() / 2 <= chosen_request_length(attr, spec) < spec.len_10ms() / 2
            + spec.frame_size(),
        chosen_target_length(attr, spec) <= 20 * spec.len_10ms(),
        chosen_target_length(attr, spec) == 20 * spec.len_10ms() || 2 * spec.len_10ms()
            <= chosen_target_length(attr, spec) < 2 * spec.len_10ms() + chosen_request_length(
            attr,
            spec,
        ),
        chosen_pre_buffering(attr, spec) == chosen_target_length(attr, spec),
{
    crate::math::lemma_next_multiple(spec.len_10ms() as int / 2, spec.frame_size());
    crate::math::lemma_next_multiple(spec.len_10ms() * 2, chosen_request_length(attr, spec));
}

/// The lengths that are chosen can be held.
pub proof fn lemma_chosen_fit(attr: BufferAttr, spec: SampleSpec)
    requires
        configurable(attr, spec),
    ensures
        0 <= chosen_max_length(attr, spec) <= u32::MAX,
        0 < chosen_request_length(attr, spec) <= u32::MAX,
        0 <= chosen_target_length(attr, spec) <= u32::MAX,
        0 <= chosen_pre_buffering(attr, spec) <= u32::MAX,
{
    let request = chosen_request_length(attr, spec);
    crate::math::lemma_next_multiple(attr.max_length as int, spec.frame_size());
    crate::math::lemma_next_multiple(spec.len_10ms() * 2, request);
    crate::math::lemma_next_multiple(attr.target_length as int, request);
    crate::math::lemma_next_multiple(attr.pre_buffering as int, request);
}

} // verus!
