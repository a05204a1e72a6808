//! Commands, out of the packets that hold them.

use pulseaudio::protocol::{Command as PulseCommand, Prop, ProtocolError};
use vstd::prelude::*;
use crate::audio::playback::{BufferAttr, SampleFormat, SampleSpec};
use crate::audio::pulse::{
    Command, CommandView, FormatProps, FormatPropsView, Received, ReceivedView,
};

verus! {

/// What a packet says: which command it is, its number, and those of its
/// parameters that decide what is done.
pub enum WireView {
    Command(WireCommand),
    /// A command of the protocol that is not decoded.
    Unimplemented { seq: u32 },
    Malformed,
}

#[verifier::ext_equal]
pub struct WireCommand {
    pub seq: u32,
    /// The number that stands for the command.
    pub tag: u32,
    /// The parameters of a command on a stream or a client.
    pub params: Option<Params>,
    /// The parameters of a new stream.
    pub stream: Option<StreamParams>,
    /// The formats that are offered for a new stream.
    pub formats: Seq<FormatPropsView>,
}

/// Which command a packet holds.
#[derive(Debug, Clone, Copy, PartialEq, Eq, Structural)]
pub enum Head {
    Command { seq: u32, tag: u32 },
    Unimplemented { seq: u32 },
    Malformed,
}

#[derive(Debug, Clone, Copy, PartialEq, Eq, Structural)]
pub enum Params {
    Auth { version: u16 },
    GetClientInfo { id: u32 },
    DrainPlaybackStream { channel: u32 },
    FlushPlaybackStream { channel: u32 },
    GetPlaybackLatency { channel: u32 },
    CorkPlaybackStream { channel: u32, cork: bool },
}

#[derive(Debug, Clone, Copy, PartialEq, Eq, Structural)]
pub struct StreamParams {
    /// The number that stands for the sample format.
    pub format: u8,
    pub channels: u8,
    pub sample_rate: u32,
    pub buffer_attr: BufferAttr,
    pub start_corked: bool,
}

impl WireView {
    pub open spec fn head(self) -> Head {
        match self {
            WireView::Command(command) => Head::Command { seq: command.seq, tag: command.tag },
            WireView::Unimplemented { seq } => Head::Unimplemented { seq },
            WireView::Malformed => Head::Malformed,
        }
    }

    pub open spec fn params(self) -> Option<Params> {
        match self {
            WireView::Command(command) => command.params,
            _ => None,
        }
    }

    pub open spec fn stream(self) -> Option<StreamParams> {
        match self {
            WireView::Command(command) => command.stream,
            _ => None,
        }
    }

    pub open spec fn formats(self) -> Seq<FormatPropsView> {
        match self {
            WireView::Command(command) => command.formats,
            _ => Seq::empty(),
        }
    }
}

/// What `pulseaudio::protocol::Command::read_tag_prefixed` makes of a payload
/// that was sent in a version of the protocol. Each of the functions below
/// makes that call and hands out one part of what it finds.
pub uninterp spec fn read_command_of(payload: Seq<u8>, version: u16) -> WireView;

/// A request for a latency, up to the microseconds of the time that it holds.
pub open spec fn asks_latency(payload: Seq<u8>) -> bool {
    &&& payload.len() >= 24
    &&& payload[0] == 0x4c
    &&& crate::audio::pulse::be_u32(payload, 1) == 14 || crate::audio::pulse::be_u32(payload, 1)
        == 57
    &&& payload[5] == 0x4c
    &&& payload[10] == 0x4c
    &&& payload[15] == 0x54
}

/// The microseconds in a request for a latency, if the payload is one, fit a
/// `u32` as nanoseconds, which is what the decoder makes of them.
pub open spec fn decodable(payload: Seq<u8>) -> bool {
    asks_latency(payload) ==> crate::audio::pulse::be_u32(payload, 20) <= 4_294_967
}

/// `pulseaudio::protocol::Command::read_tag_prefixed`, `tag`: which command it
/// finds, by its number, or why there is none.
#[verifier::external_body]
fn read_head(payload: &Vec<u8>, version: u16) -> (head: Head)
    requires
        decodable(payload@),
    ensures
        head == read_command_of(payload@, version).head(),
{
    match PulseCommand::read_tag_prefixed(&mut payload.as_slice(), version) {
        Ok((seq, command)) => Head::Command { seq, tag: command.tag() as u32 },
        Err(ProtocolError::Unimplemented(seq, _)) => Head::Unimplemented { seq },
        Err(_) => Head::Malformed,
    }
}

/// `pulseaudio::protocol::Command::read_tag_prefixed`: the parameters of the
/// commands on a stream or a client.
#[verifier::external_body]
fn read_params(payload: &Vec<u8>, version: u16) -> (params: Option<Params>)
    requires
        decodable(payload@),
    ensures
        params == read_command_of(payload@, version).params(),
{
    Some(match PulseCommand::read_tag_prefixed(&mut payload.as_slice(), version).ok()?.1 {
        PulseCommand::Auth(p) => Params::Auth { version: p.version },
        PulseCommand::GetClientInfo(id) => Params::GetClientInfo { id },
        PulseCommand::DrainPlaybackStream(channel) => Params::DrainPlaybackStream { channel },
        PulseCommand::FlushPlaybackStream(channel) => Params::FlushPlaybackStream { channel },
        PulseCommand::GetPlaybackLatency(p) => Params::GetPlaybackLatency { channel: p.channel },
        PulseCommand::CorkPlaybackStream(p) => {
            Params::CorkPlaybackStream { channel: p.channel, cork: p.cork }
        },
        _ => return None,
    })
}

/// `pulseaudio::protocol::Command::read_tag_prefixed`: the parameters of a new
/// stream.
#[verifier::external_body]
fn read_stream(payload: &Vec<u8>, version: u16) -> (stream: Option<StreamParams>)
    requires
        decodable(payload@),
    ensures
        stream == read_command_of(payload@, version).stream(),
{
    let (spec, attr, start_corked) =
        match PulseCommand::read_tag_prefixed(&mut payload.as_slice(), version).ok()?.1 {
        PulseCommand::CreatePlaybackStream(p) => (p.sample_spec, p.buffer_attr, p.flags.start_corked),
        _ => return None,
    };
    let (format, channels, sample_rate) = (spec.format as u8, spec.channels, spec.sample_rate);
    let buffer_attr = BufferAttr {
        max_length: attr.max_length,
        target_length: attr.target_length,
        pre_buffering: attr.pre_buffering,
        minimum_request_length: attr.minimum_request_length,
        fragment_size: attr.fragment_size,
    };
    Some(StreamParams { format, channels, sample_rate, buffer_attr, start_corked })
}

/// `pulseaudio::protocol::Command::read_tag_prefixed`: the formats that are
/// offered for a new stream, each with three of its properties, which
/// `pulseaudio::protocol::Props::get` finds.
#[verifier::external_body]
fn read_formats(payload: &Vec<u8>, version: u16) -> (formats: Vec<FormatProps>)
    requires
        decodable(payload@),
    ensures
        crate::audio::pulse::format_views(formats@) == read_command_of(payload@, version).formats(),
{
    match PulseCommand::read_tag_prefixed(&mut payload.as_slice(), version) {
        Ok((_, PulseCommand::CreatePlaybackStream(p))) => p.formats.iter().map(|f| FormatProps {
            format: f.props.get(Prop::FormatSampleFormat).map(|v| v.to_vec()),
            rate: f.props.get(Prop::FormatRate).map(|v| v.to_vec()),
            channels: f.props.get(Prop::FormatChannels).map(|v| v.to_vec()),
        }).collect(),
        _ => Vec::new(),
    }
}

/// The sample format that a number stands for.
pub open spec fn format_numbered(number: u8) -> SampleFormat {
    match number {
        0 => SampleFormat::U8,
        1 => SampleFormat::Alaw,
        2 => SampleFormat::Ulaw,
        3 => SampleFormat::S16Le,
        4 => SampleFormat::S16Be,
        5 => SampleFormat::Float32Le,
        6 => SampleFormat::Float32Be,
        7 => SampleFormat::S32Le,
        8 => SampleFormat::S32Be,
        9 => SampleFormat::S24Le,
        10 => SampleFormat::S24Be,
        11 => SampleFormat::S24In32Le,
        12 => SampleFormat::S24In32Be,
        _ => SampleFormat::Invalid,
    }
}

fn number_format(number: u8) -> (format: SampleFormat)
    ensures
        format == format_numbered(number),
{
    match number {
        0 => SampleFormat::U8,
        1 => SampleFormat::Alaw,
        2 => SampleFormat::Ulaw,
        3 => SampleFormat::S16Le,
        4 => SampleFormat::S16Be,
        5 => SampleFormat::Float32Le,
        6 => SampleFormat::Float32Be,
        7 => SampleFormat::S32Le,
        8 => SampleFormat::S32Be,
        9 => SampleFormat::S24Le,
        10 => SampleFormat::S24Be,
        11 => SampleFormat::S24In32Le,
        12 => SampleFormat::S24In32Be,
        _ => SampleFormat::Invalid,
    }
}

/// How much the buffer of a stream holds.
#[derive(Debug, Clone, Copy, PartialEq, Eq, Structural)]
pub struct BufferLen {
    pub channel: u32,
    pub len: usize,
}

/// How much the buffer of a stream holds: nothing, if it is not listed.
pub open spec fn buffered(lens: Seq<BufferLen>, channel: u32) -> usize
    decreases lens.len(),
{
    if lens.len() == 0 {
        0
    } else if lens.last().channel == channel {
        lens.last().len
    } else {
        buffered(lens.drop_last(), channel)
    }
}

fn find_buffered(lens: &Vec<BufferLen>, channel: u32) -> (len: usize)
    ensures
        len == buffered(lens@, channel),
{
    let mut i: usize = lens.len();
    assert(lens@.take(i as int) =~= lens@);
    while i > 0
        invariant
            i <= lens@.len(),
            buffered(lens@.take(i as int), channel) == buffered(lens@, channel),
        decreases i,
    {
        i -= 1;
        assert(lens@.take(i + 1).drop_last() =~= lens@.take(i as int));
        if lens[i].channel == channel {
            return lens[i].len;
        }
    }
    0
}

/// A command without parameters that matter, by its number.
pub open spec fn bare_command(tag: u32) -> CommandView {
    match tag {
        9 => CommandView::SetClientName,
        20 => CommandView::GetServerInfo,
        21 => CommandView::GetSinkInfo,
        22 => CommandView::GetSinkInfoList,
        23 => CommandView::GetSourceInfo,
        24 => CommandView::GetSourceInfoList,
        28 => CommandView::GetClientInfoList,
        30 => CommandView::GetSinkInputInfoList,
        32 => CommandView::GetSourceOutputInfoList,
        35 => CommandView::Subscribe,
        81 => CommandView::UpdatePlaybackStreamProplist,
        87 => CommandView::Extension,
        88 => CommandView::GetCardInfo,
        89 => CommandView::GetCardInfoList,
        _ => CommandView::Other,
    }
}

fn make_bare_command(tag: u32) -> (command: Command)
    ensures
        command@ == bare_command(tag),
{
    match tag {
        9 => Command::SetClientName,
        20 => Command::GetServerInfo,
        21 => Command::GetSinkInfo,
        22 => Command::GetSinkInfoList,
        23 => Command::GetSourceInfo,
        24 => Command::GetSourceInfoList,
        28 => Command::GetClientInfoList,
        30 => Command::GetSinkInputInfoList,
        32 => Command::GetSourceOutputInfoList,
        35 => Command::Subscribe,
        81 => Command::UpdatePlaybackStreamProplist,
        87 => Command::Extension,
        88 => Command::GetCardInfo,
        89 => Command::GetCardInfoList,
        _ => Command::Other,
    }
}

/// The command that a packet stands for; `lens` tells how much the buffers
/// hold.
pub open spec fn command_read(wire: WireCommand, lens: Seq<BufferLen>) -> CommandView {
    if let Some(stream) = wire.stream {
        CommandView::CreatePlaybackStream {
            sample_spec: SampleSpec {
                format: format_numbered(stream.format),
                channels: stream.channels,
                sample_rate: stream.sample_rate,
            },
            formats: wire.formats,
            buffer_attr: stream.buffer_attr,
            start_corked: stream.start_corked,
        }
    } else if let Some(params) = wire.params {
        match params {
            Params::Auth { version } => CommandView::Auth { version },
            Params::GetClientInfo { id } => CommandView::GetClientInfo { id },
            Params::DrainPlaybackStream { channel } => {
                CommandView::DrainPlaybackStream { channel }
            },
            Params::FlushPlaybackStream { channel } => {
                CommandView::FlushPlaybackStream { channel }
            },
            Params::GetPlaybackLatency { channel } => CommandView::GetPlaybackLatency { channel },
            Params::CorkPlaybackStream { channel, cork } => CommandView::CorkPlaybackStream {
                channel,
                cork,
                buffer_len: buffered(lens, channel),
            },
        }
    } else {
        bare_command(wire.tag)
    }
}

/// What a client asks for with a packet.
pub open spec fn packet_read(wire: WireView, lens: Seq<BufferLen>) -> ReceivedView {
    match wire {
        WireView::Command(command) => ReceivedView::Command {
            seq: command.seq,
            command: command_read(command, lens),
        },
        WireView::Unimplemented { seq } => ReceivedView::Unimplemented { seq },
        WireView::Malformed => ReceivedView::Malformed,
    }
}

/// Whether the time in a payload, if it asks for a latency, can be held.
pub fn is_decodable(payload: &Vec<u8>) -> (possible: bool)
    ensures
        possible == decodable(payload@),
{
    if payload.len() < 24 || payload[0] != 0x4c || payload[5] != 0x4c || payload[10] != 0x4c
        || payload[15] != 0x54 {
        return true;
    }
    let tag: u32 = read_u32(payload, 1);
    tag != 14 && tag != 57 || read_u32(payload, 20) <= 4_294_967
}

fn read_u32(bytes: &Vec<u8>, at: usize) -> (number: u32)
    requires
        at + 4 <= bytes@.len(),
    ensures
        number == crate::audio::pulse::be_u32(bytes@, at as int),
{
    let end: usize = bytes.len();
    assert(at + 3 < end);
    bytes[at] as u32 * 0x100_0000 + bytes[at + 1] as u32 * 0x1_0000 + bytes[at + 2] as u32 * 0x100
        + bytes[at + 3] as u32
}

/// Decodes a packet of the control channel, in the version of the protocol that
/// its client speaks; `lens` tells how much the buffers of its streams hold.
pub fn decode_packet(payload: &Vec<u8>, version: u16, lens: &Vec<BufferLen>) -> (received: Received)
    requires
        decodable(payload@),
    ensures
        received@ == packet_read(read_command_of(payload@, version), lens@),
{
    let (seq, tag) = match read_head(payload, version) {
        Head::Command { seq, tag } => (seq, tag),
        Head::Unimplemented { seq } => {
            return Received::Unimplemented { seq };
        },
        Head::Malformed => {
            return Received::Malformed;
        },
    };
    if let Some(stream) = read_stream(payload, version) {
        let formats = read_formats(payload, version);
        let sample_spec = SampleSpec {
            format: number_format(stream.format),
            channels: stream.channels,
            sample_rate: stream.sample_rate,
        };
        let command = Command::CreatePlaybackStream {
            sample_spec,
            formats,
            buffer_attr: stream.buffer_attr,
            start_corked: stream.start_corked,
        };
        return Received::Command { seq, command };
    }
    let command = match read_params(payload, version) {
        Some(Params::Auth { version }) => Command::Auth { version },
        Some(Params::GetClientInfo { id }) => Command::GetClientInfo { id },
        Some(Params::DrainPlaybackStream { channel }) => Command::DrainPlaybackStream { channel },
        Some(Params::FlushPlaybackStream { channel }) => Command::FlushPlaybackStream { channel },
        Some(Params::GetPlaybackLatency { channel }) => Command::GetPlaybackLatency { channel },
        Some(Params::CorkPlaybackStream { channel, cork }) => Command::CorkPlaybackStream {
            channel,
            cork,
            buffer_len: find_buffered(lens, channel),
        },
        None => make_bare_command(tag),
    };
    Received::Command { seq, command }
}

/// Sample formats have the numbers of the protocol.
pub proof fn sample_formats_are_numbered(number: u8)
    ensures
        number < 13 ==> format_numbered(number) == seq![
            SampleFormat::U8,
            SampleFormat::Alaw,
            SampleFormat::Ulaw,
            SampleFormat::S16Le,
            SampleFormat::S16Be,
            SampleFormat::Float32Le,
            SampleFormat::Float32Be,
            SampleFormat::S32Le,
            SampleFormat::S32Be,
            SampleFormat::S24Le,
            SampleFormat::S24Be,
            SampleFormat::S24In32Le,
            SampleFormat::S24In32Be,
        ][number as int],
        number >= 13 ==> format_numbered(number) == SampleFormat::Invalid,
{
}

/// Commands without parameters that matter have the numbers of the protocol, and
/// every other number stands for a command that is not carried out.
pub proof fn bare_commands_are_numbered(tag: u32)
    ensures
        bare_command(tag) is SetClientName <==> tag == 9,
        bare_command(tag) is GetServerInfo <==> tag == 20,
        bare_command(tag) is GetSinkInfo <==> tag == 21,
        bare_command(tag) is GetSinkInfoList <==> tag == 22,
        bare_command(tag) is GetSourceInfo <==> tag == 23,
        bare_command(tag) is GetSourceInfoList <==> tag == 24,
        bare_command(tag) is GetClientInfoList <==> tag == 28,
        bare_command(tag) is GetSinkInputInfoList <==> tag == 30,
        bare_command(tag) is GetSourceOutputInfoList <==> tag == 32,
        bare_command(tag) is Subscribe <==> tag == 35,
        bare_command(tag) is UpdatePlaybackStreamProplist <==> tag == 81,
        bare_command(tag) is Extension <==> tag == 87,
        bare_command(tag) is GetCardInfo <==> tag == 88,
        bare_command(tag) is GetCardInfoList <==> tag == 89,
{
}

/// A packet asks for what its parameters say: of the stream or client that they
/// name, with the values that they hold, and under its own number.
pub proof fn parameters_are_kept(wire: WireCommand, lens: Seq<BufferLen>)
    ensures
        packet_read(WireView::Command(wire), lens) matches ReceivedView::Command { seq, command }
            && seq == wire.seq && command == command_read(wire, lens),
        wire.stream matches Some(stream) ==> (command_read(wire, lens) matches
            CommandView::CreatePlaybackStream { sample_spec, formats, buffer_attr, start_corked }
            && sample_spec.channels == stream.channels && sample_spec.sample_rate
            == stream.sample_rate && sample_spec.format == format_numbered(stream.format) && formats
            == wire.formats && buffer_attr.max_length == stream.buffer_attr.max_length
            && buffer_attr.target_length == stream.buffer_attr.target_length
            && buffer_attr.pre_buffering == stream.buffer_attr.pre_buffering
            && buffer_attr.minimum_request_length == stream.buffer_attr.minimum_request_length
            && start_corked == stream.start_corked),
        wire.stream is None ==> match wire.params {
            Some(Params::Auth { version: v }) => command_read(wire, lens) matches
                CommandView::Auth { version } && version == v,
            Some(Params::GetClientInfo { id: i }) => command_read(wire, lens) matches
                CommandView::GetClientInfo { id } && id == i,
            Some(Params::DrainPlaybackStream { channel: c }) => command_read(wire, lens) matches
                CommandView::DrainPlaybackStream { channel } && channel == c,
            Some(Params::FlushPlaybackStream { channel: c }) => command_read(wire, lens) matches
                CommandView::FlushPlaybackStream { channel } && channel == c,
            Some(Params::GetPlaybackLatency { channel: c }) => command_read(wire, lens) matches
                CommandView::GetPlaybackLatency { channel } && channel == c,
            Some(Params::CorkPlaybackStream { channel: c, cork: stop }) => command_read(
                wire,
                lens,
            ) matches CommandView::CorkPlaybackStream { channel, cork, buffer_len } && channel == c
                && cork == stop && buffer_len == buffered(lens, c),
            None => command_read(wire, lens) == bare_command(wire.tag),
        },
{
}

/// Packets that are no command are told apart from those that are not known.
pub proof fn other_packets_are_told_apart(seq: u32, lens: Seq<BufferLen>)
    ensures
        packet_read(WireView::Unimplemented { seq }, lens) == (ReceivedView::Unimplemented { seq }),
        packet_read(WireView::Malformed, lens) == ReceivedView::Malformed,
{
}

/// How much a buffer holds is what the list says of it, and nothing if the list
/// does not say.
pub proof fn listed_length_is_found(lens: Seq<BufferLen>, i: int, channel: u32)
    requires
        0 <= i < lens.len(),
        lens[i].channel == channel,
        forall|j: int| i < j < lens.len() ==> (#[trigger] lens[j]).channel != channel,
    ensures
        buffered(lens, channel) == lens[i].len,
    decreases lens.len(),
{
    if i < lens.len() - 1 {
        assert(lens[lens.len() - 1].channel != channel);
        listed_length_is_found(lens.drop_last(), i, channel);
    }
}

/// A buffer that the list does not name holds nothing.
pub proof fn unlisted_buffer_is_empty(lens: Seq<BufferLen>, channel: u32)
    requires
        forall|j: int| 0 <= j < lens.len() ==> (#[trigger] lens[j]).channel != channel,
    ensures
        buffered(lens, channel) == 0,
    decreases lens.len(),
{
    if lens.len() > 0 {
        assert(lens[lens.len() - 1].channel != channel);
        unlisted_buffer_is_empty(lens.drop_last(), channel);
    }
}

} // verus!
