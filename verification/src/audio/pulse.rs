//! The PulseAudio protocol: packets, commands, and the clients that send them.

use std::collections::BTreeMap;
use vstd::prelude::*;
use crate::audio::decode::{decode_packet, is_decodable, BufferLen};
use crate::audio::playback::{
    configure_buffer, is_configurable, BufferAttr, BufferLevel, PlaybackStream, SampleFormat, SampleSpec,
    StreamMessage, StreamState, WriteError,
};
use crate::text::{chars_of, decode_text, parse_unsigned, spells, trim_matches};

verus! {

broadcast use vstd::std_specs::btree::group_btree_axioms;

/// The newest version of the protocol that is spoken.
pub const MAX_VERSION: u16 = 35;

/// The length of the header of a packet.
pub const DESCRIPTOR_SIZE: usize = 20;

/// How much is read at once while the length of the next packet is not known.
pub const READ_SIZE: u64 = 8192;

/// The channel of packets that hold commands.
pub const CONTROL_CHANNEL: u32 = 0xffff_ffff;

/// The first token that is given to a client.
pub const FIRST_CLIENT_TOKEN: u32 = 1024;

#[derive(Debug, Clone, Copy, PartialEq, Eq, Structural)]
pub struct Descriptor {
    pub length: u32,
    pub channel: u32,
    pub offset: u64,
}

impl Descriptor {
    /// Whether the packet holds a command; else it holds samples for the
    /// stream with that channel.
    pub fn is_command(&self) -> (command: bool)
        ensures
            command == (self.channel == CONTROL_CHANNEL),
    {
        self.channel == CONTROL_CHANNEL
    }
}

/// Four bytes, as a number in network order.
pub open spec fn be_u32(bytes: Seq<u8>, at: int) -> u32 {
    (bytes[at] * 0x100_0000 + bytes[at + 1] * 0x1_0000 + bytes[at + 2] * 0x100 + bytes[at
        + 3]) as u32
}

/// The header at the beginning of a buffer.
pub open spec fn descriptor_at_start(bytes: Seq<u8>) -> Descriptor {
    Descriptor {
        length: be_u32(bytes, 0),
        channel: be_u32(bytes, 4),
        offset: (be_u32(bytes, 8) * 0x1_0000_0000 + be_u32(bytes, 12)) as u64,
    }
}

/// `pulseaudio::protocol::read_descriptor`: the header at the beginning of a
/// buffer. Its flags are left out.
#[verifier::external_body]
fn read_descriptor(bytes: &Vec<u8>) -> (descriptor: Option<Descriptor>)
    ensures
        bytes@.len() >= DESCRIPTOR_SIZE ==> descriptor == Some(descriptor_at_start(bytes@)),
        bytes@.len() < DESCRIPTOR_SIZE ==> descriptor is None,
{
    let mut reader: &[u8] = bytes.as_slice();
    match pulseaudio::protocol::read_descriptor(&mut reader) {
        Ok(d) => Some(Descriptor { length: d.length, channel: d.channel, offset: d.offset }),
        Err(_) => None,
    }
}

/// What there is at the beginning of what a client sent.
pub enum Framing {
    /// Less than a packet; up to so many bytes are to be read next.
    Incomplete { read_size: u64 },
    Packet { descriptor: Descriptor, payload: Vec<u8> },
}

/// Takes the next packet off what a client sent.
pub fn next_packet(incoming: &mut Vec<u8>) -> (framing: Framing)
    ensures
        ({
            let all = old(incoming)@;
            let descriptor = descriptor_at_start(all);
            let total = DESCRIPTOR_SIZE + descriptor.length;
            if all.len() < DESCRIPTOR_SIZE {
                framing == (Framing::Incomplete { read_size: READ_SIZE }) && final(incoming)@ == all
            } else if all.len() < total {
                framing == (Framing::Incomplete { read_size: (total - all.len()) as u64 })
                    && final(incoming)@ == all
            } else {
                &&& framing is Packet
                &&& framing->descriptor == descriptor
                &&& framing->payload@ == all.subrange(DESCRIPTOR_SIZE as int, total)
                &&& final(incoming)@ == all.skip(total)
            }
        }),
{
    let ghost all = incoming@;
    let len: usize = incoming.len();
    if len < DESCRIPTOR_SIZE {
        return Framing::Incomplete { read_size: READ_SIZE };
    }
    let descriptor = match read_descriptor(incoming) {
        Some(descriptor) => descriptor,
        None => {
            return Framing::Incomplete { read_size: READ_SIZE };
        },
    };
    let total: u64 = descriptor.length as u64 + DESCRIPTOR_SIZE as u64;
    if (len as u64) < total {
        return Framing::Incomplete { read_size: total - len as u64 };
    }
    let mut payload: Vec<u8> = Vec::new();
    let end: usize = total as usize;
    let mut i: usize = DESCRIPTOR_SIZE;
    while i < end
        invariant
            DESCRIPTOR_SIZE <= i <= end <= all.len(),
            incoming@ == all,
            payload@ =~= all.subrange(DESCRIPTOR_SIZE as int, i as int),
        decreases end - i,
    {
        payload.push(incoming[i]);
        i += 1;
    }
    let rest = incoming.split_off(i);
    assert(rest@ =~= all.skip(total as int));
    *incoming = rest;
    Framing::Packet { descriptor, payload }
}

/// A packet and what follows it make up what was sent.
pub proof fn framing_loses_nothing(all: Seq<u8>)
    requires
        all.len() >= DESCRIPTOR_SIZE + descriptor_at_start(all).length,
    ensures
        ({
            let total = DESCRIPTOR_SIZE + descriptor_at_start(all).length;
            all.take(DESCRIPTOR_SIZE as int) + all.subrange(DESCRIPTOR_SIZE as int, total)
                + all.skip(total) == all
        }),
{
    let total = DESCRIPTOR_SIZE + descriptor_at_start(all).length;
    assert(all.take(DESCRIPTOR_SIZE as int) + all.subrange(DESCRIPTOR_SIZE as int, total)
        + all.skip(total) =~= all);
}

/// The properties of a format that a client offers, as they were sent.
pub struct FormatProps {
    pub format: Option<Vec<u8>>,
    pub rate: Option<Vec<u8>>,
    pub channels: Option<Vec<u8>>,
}

#[verifier::ext_equal]
pub struct FormatPropsView {
    pub format: Option<Seq<u8>>,
    pub rate: Option<Seq<u8>>,
    pub channels: Option<Seq<u8>>,
}

impl View for FormatProps {
    type V = FormatPropsView;

    open spec fn view(&self) -> FormatPropsView {
        FormatPropsView {
            format: bytes_view(self.format),
            rate: bytes_view(self.rate),
            channels: bytes_view(self.channels),
        }
    }
}

pub open spec fn bytes_view(bytes: Option<Vec<u8>>) -> Option<Seq<u8>> {
    match bytes {
        Some(bytes) => Some(bytes@),
        None => None,
    }
}

pub open spec fn format_views(formats: Seq<FormatProps>) -> Seq<FormatPropsView> {
    Seq::new(formats.len(), |i: int| formats[i]@)
}

#[derive(Debug, Clone, Copy, PartialEq, Eq, Structural)]
pub enum FormatError {
    MissingFormat,
    MissingRate,
    MissingChannels,
    InvalidString,
    InvalidUtf8,
    UnsupportedFormat,
    InvalidRate,
    InvalidChannels,
}

/// The text of a property: it ends with its only zero byte, is UTF-8, and may
/// be quoted.
pub open spec fn prop_text(bytes: Seq<u8>) -> Result<Seq<char>, FormatError> {
    if bytes.len() == 0 || bytes.last() != 0 || (exists|i: int|
        0 <= i < bytes.len() - 1 && #[trigger] bytes[i] == 0) {
        Err(FormatError::InvalidString)
    } else if !vstd::utf8::valid_utf8(bytes.drop_last()) {
        Err(FormatError::InvalidUtf8)
    } else {
        Ok(
            crate::text::trimmed_end(
                crate::text::trimmed_start(vstd::utf8::decode_utf8(bytes.drop_last()), '"'),
                '"',
            ),
        )
    }
}

/// Reads the text of a property.
pub fn sanitize_prop_str(bytes: &Vec<u8>) -> (text: Result<Vec<char>, FormatError>)
    ensures
        match text {
            Ok(chars) => prop_text(bytes@) == Ok::<Seq<char>, FormatError>(chars@),
            Err(err) => prop_text(bytes@) == Err::<Seq<char>, FormatError>(err),
        },
{
    let len: usize = bytes.len();
    if len == 0 || bytes[len - 1] != 0 {
        return Err(FormatError::InvalidString);
    }
    let mut body: Vec<u8> = Vec::new();
    let mut i: usize = 0;
    while i < len - 1
        invariant
            0 < len == bytes@.len(),
            bytes@.last() == 0,
            i <= len - 1,
            body@ =~= bytes@.take(i as int),
            forall|j: int| 0 <= j < i ==> #[trigger] bytes@[j] != 0,
        decreases len - i,
    {
        if bytes[i] == 0 {
            return Err(FormatError::InvalidString);
        }
        body.push(bytes[i]);
        i += 1;
    }
    assert(body@ =~= bytes@.drop_last());
    match decode_text(body) {
        Some(text) => Ok(trim_matches(chars_of(text.as_str()), '"')),
        None => Err(FormatError::InvalidUtf8),
    }
}

/// The sample format that a name stands for.
pub open spec fn format_named(name: Seq<char>) -> Option<SampleFormat> {
    if name == "s16le"@ {
        Some(SampleFormat::S16Le)
    } else if name == "s16be"@ {
        Some(SampleFormat::S16Be)
    } else if name == "u8"@ {
        Some(SampleFormat::U8)
    } else if name == "s32le"@ {
        Some(SampleFormat::S32Le)
    } else if name == "s32be"@ {
        Some(SampleFormat::S32Be)
    } else if name == "s24le"@ {
        Some(SampleFormat::S24Le)
    } else if name == "s24be"@ {
        Some(SampleFormat::S24Be)
    } else if name == "float32le"@ {
        Some(SampleFormat::Float32Le)
    } else if name == "float32be"@ {
        Some(SampleFormat::Float32Be)
    } else {
        None
    }
}

fn find_format(name: &Vec<char>) -> (format: Option<SampleFormat>)
    ensures
        format == format_named(name@),
{
    if spells(name, "s16le") {
        Some(SampleFormat::S16Le)
    } else if spells(name, "s16be") {
        Some(SampleFormat::S16Be)
    } else if spells(name, "u8") {
        Some(SampleFormat::U8)
    } else if spells(name, "s32le") {
        Some(SampleFormat::S32Le)
    } else if spells(name, "s32be") {
        Some(SampleFormat::S32Be)
    } else if spells(name, "s24le") {
        Some(SampleFormat::S24Le)
    } else if spells(name, "s24be") {
        Some(SampleFormat::S24Be)
    } else if spells(name, "float32le") {
        Some(SampleFormat::Float32Le)
    } else if spells(name, "float32be") {
        Some(SampleFormat::Float32Be)
    } else {
        None
    }
}

/// The number in the text of a property.
pub open spec fn prop_number(bytes: Seq<u8>, max: nat, invalid: FormatError) -> Result<
    nat,
    FormatError,
> {
    match prop_text(bytes) {
        Err(err) => Err(err),
        Ok(text) => match crate::text::parsed(text, max) {
            Some(n) => Ok(n),
            None => Err(invalid),
        },
    }
}

fn read_number(bytes: &Vec<u8>, max: u64, invalid: FormatError) -> (number: Result<
    u64,
    FormatError,
>)
    ensures
        match number {
            Ok(n) => prop_number(bytes@, max as nat, invalid) == Ok::<nat, FormatError>(n as nat),
            Err(err) => prop_number(bytes@, max as nat, invalid) == Err::<nat, FormatError>(err),
        },
{
    match sanitize_prop_str(bytes) {
        Err(err) => Err(err),
        Ok(text) => match parse_unsigned(&text, max) {
            Some(n) => Ok(n),
            None => Err(invalid),
        },
    }
}

/// The sample specification that a format stands for.
pub open spec fn format_spec(props: FormatPropsView) -> Result<SampleSpec, FormatError> {
    if props.format is None {
        Err(FormatError::MissingFormat)
    } else if props.rate is None {
        Err(FormatError::MissingRate)
    } else if props.channels is None {
        Err(FormatError::MissingChannels)
    } else {
        match prop_text(props.format->0) {
            Err(err) => Err(err),
            Ok(name) => match format_named(name) {
                None => Err(FormatError::UnsupportedFormat),
                Some(format) => match prop_number(
                    props.rate->0,
                    u32::MAX as nat,
                    FormatError::InvalidRate,
                ) {
                    Err(err) => Err(err),
                    Ok(rate) => match prop_number(
                        props.channels->0,
                        u8::MAX as nat,
                        FormatError::InvalidChannels,
                    ) {
                        Err(err) => Err(err),
                        Ok(channels) => Ok(
                            SampleSpec {
                                format,
                                channels: channels as u8,
                                sample_rate: rate as u32,
                            },
                        ),
                    },
                },
            },
        }
    }
}

/// Reads a sample specification from the properties of a format.
pub fn sample_spec_from_format(props: &FormatProps) -> (spec: Result<SampleSpec, FormatError>)
    ensures
        spec == format_spec(props@),
{
    let format = match &props.format {
        Some(format) => format,
        None => {
            return Err(FormatError::MissingFormat);
        },
    };
    let rate = match &props.rate {
        Some(rate) => rate,
        None => {
            return Err(FormatError::MissingRate);
        },
    };
    let channels = match &props.channels {
        Some(channels) => channels,
        None => {
            return Err(FormatError::MissingChannels);
        },
    };
    let name = match sanitize_prop_str(format) {
        Ok(name) => name,
        Err(err) => {
            return Err(err);
        },
    };
    let format = match find_format(&name) {
        Some(format) => format,
        None => {
            return Err(FormatError::UnsupportedFormat);
        },
    };
    let sample_rate: u32 = match read_number(rate, u32::MAX as u64, FormatError::InvalidRate) {
        Ok(n) => n as u32,
        Err(err) => {
            return Err(err);
        },
    };
    let channels: u8 = match read_number(channels, u8::MAX as u64, FormatError::InvalidChannels) {
        Ok(n) => n as u8,
        Err(err) => {
            return Err(err);
        },
    };
    Ok(SampleSpec { format, channels, sample_rate })
}

/// A client of the audio server.
pub struct PulseClient {
    pub id: u32,
    pub protocol_version: u16,
    pub playback_streams: BTreeMap<u32, PlaybackStream>,
}

#[verifier::ext_equal]
pub struct PulseClientView {
    pub id: u32,
    pub protocol_version: u16,
    pub streams: Map<u32, PlaybackStream>,
}

impl View for PulseClient {
    type V = PulseClientView;

    open spec fn view(&self) -> PulseClientView {
        PulseClientView {
            id: self.id,
            protocol_version: self.protocol_version,
            streams: self.playback_streams@,
        }
    }
}

/// What the clients of the audio server share.
#[derive(Debug, Clone, Copy, PartialEq, Eq, Structural)]
pub struct PulseState {
    /// The number of cards, which is usually zero.
    pub cards: u32,
    pub next_playback_channel_index: u32,
}

/// A command of a client, with the parts that decide what is done.
pub enum Command {
    Auth { version: u16 },
    SetClientName,
    GetServerInfo,
    GetClientInfo { id: u32 },
    GetClientInfoList,
    GetCardInfo,
    GetCardInfoList,
    GetSinkInfo,
    GetSinkInfoList,
    GetSinkInputInfoList,
    GetSourceInfo,
    GetSourceOutputInfoList,
    GetSourceInfoList,
    Subscribe,
    CreatePlaybackStream {
        sample_spec: SampleSpec,
        formats: Vec<FormatProps>,
        buffer_attr: BufferAttr,
        start_corked: bool,
    },
    DrainPlaybackStream { channel: u32 },
    GetPlaybackLatency { channel: u32 },
    UpdatePlaybackStreamProplist,
    /// With the number of bytes in the buffer of the stream.
    CorkPlaybackStream { channel: u32, cork: bool, buffer_len: usize },
    FlushPlaybackStream { channel: u32 },
    Extension,
    /// Any other command.
    Other,
}

#[verifier::ext_equal]
pub enum CommandView {
    Auth { version: u16 },
    SetClientName,
    GetServerInfo,
    GetClientInfo { id: u32 },
    GetClientInfoList,
    GetCardInfo,
    GetCardInfoList,
    GetSinkInfo,
    GetSinkInfoList,
    GetSinkInputInfoList,
    GetSourceInfo,
    GetSourceOutputInfoList,
    GetSourceInfoList,
    Subscribe,
    CreatePlaybackStream {
        sample_spec: SampleSpec,
        formats: Seq<FormatPropsView>,
        buffer_attr: BufferAttr,
        start_corked: bool,
    },
    DrainPlaybackStream { channel: u32 },
    GetPlaybackLatency { channel: u32 },
    UpdatePlaybackStreamProplist,
    CorkPlaybackStream { channel: u32, cork: bool, buffer_len: usize },
    FlushPlaybackStream { channel: u32 },
    Extension,
    Other,
}

impl View for Command {
    type V = CommandView;

    open spec fn view(&self) -> CommandView {
        match *self {
            Command::Auth { version } => CommandView::Auth { version },
            Command::SetClientName => CommandView::SetClientName,
            Command::GetServerInfo => CommandView::GetServerInfo,
            Command::GetClientInfo { id } => CommandView::GetClientInfo { id },
            Command::GetClientInfoList => CommandView::GetClientInfoList,
            Command::GetCardInfo => CommandView::GetCardInfo,
            Command::GetCardInfoList => CommandView::GetCardInfoList,
            Command::GetSinkInfo => CommandView::GetSinkInfo,
            Command::GetSinkInfoList => CommandView::GetSinkInfoList,
            Command::GetSinkInputInfoList => CommandView::GetSinkInputInfoList,
            Command::GetSourceInfo => CommandView::GetSourceInfo,
            Command::GetSourceOutputInfoList => CommandView::GetSourceOutputInfoList,
            Command::GetSourceInfoList => CommandView::GetSourceInfoList,
            Command::Subscribe => CommandView::Subscribe,
            Command::CreatePlaybackStream { sample_spec, formats, buffer_attr, start_corked } => {
                CommandView::CreatePlaybackStream {
                    sample_spec,
                    formats: format_views(formats@),
                    buffer_attr,
                    start_corked,
                }
            },
            Command::DrainPlaybackStream { channel } => {
                CommandView::DrainPlaybackStream { channel }
            },
            Command::GetPlaybackLatency { channel } => CommandView::GetPlaybackLatency { channel },
            Command::UpdatePlaybackStreamProplist => CommandView::UpdatePlaybackStreamProplist,
            Command::CorkPlaybackStream { channel, cork, buffer_len } => {
                CommandView::CorkPlaybackStream { channel, cork, buffer_len }
            },
            Command::FlushPlaybackStream { channel } => {
                CommandView::FlushPlaybackStream { channel }
            },
            Command::Extension => CommandView::Extension,
            Command::Other => CommandView::Other,
        }
    }
}

/// What a packet on the control channel was decoded to.
pub enum Received {
    Command { seq: u32, command: Command },
    /// A command of the protocol that the decoder does not know.
    Unimplemented { seq: u32 },
    /// No command at all.
    Malformed,
}

#[verifier::ext_equal]
pub enum ReceivedView {
    Command { seq: u32, command: CommandView },
    Unimplemented { seq: u32 },
    Malformed,
}

impl View for Received {
    type V = ReceivedView;

    open spec fn view(&self) -> ReceivedView {
        match *self {
            Received::Command { seq, command } => ReceivedView::Command { seq, command: command@ },
            Received::Unimplemented { seq } => ReceivedView::Unimplemented { seq },
            Received::Malformed => ReceivedView::Malformed,
        }
    }
}

/// Why a packet was not answered.
#[derive(Debug, Clone, Copy, PartialEq, Eq, Structural)]
pub enum PacketError {
    /// It does not hold a command: the client broke the protocol, and is
    /// dropped.
    Malformed,
    /// It asks for what cannot be carried out, or holds a time that cannot be
    /// held.
    Impossible,
}

/// A client broke the protocol, and is dropped.
#[derive(Debug, Clone, Copy, PartialEq, Eq, Structural)]
pub struct BrokenProtocol;

#[derive(Debug, Clone, Copy, PartialEq, Eq, Structural)]
pub enum PulseError {
    NoEntity,
    NoExtension,
    NotImplemented,
}

/// The answer to a command.
#[derive(Debug, Clone, Copy, PartialEq, Eq, Structural)]
pub enum Reply {
    Auth { version: u16 },
    ClientName { client_id: u32 },
    ServerInfo,
    ClientInfo { index: u32 },
    EmptyClientInfoList,
    CardInfo,
    CardInfoList,
    SinkInfo,
    SinkInfoList,
    EmptySinkInputInfoList,
    EmptySourceOutputInfoList,
    EmptySourceInfoList,
    PlaybackStream {
        channel: u32,
        stream_index: u32,
        sample_spec: SampleSpec,
        buffer_attr: BufferAttr,
        requested_bytes: u32,
        stream_latency: u64,
    },
    PlaybackLatency {
        sink_usec: u64,
        source_usec: u64,
        playing: bool,
        write_offset: i64,
        read_offset: i64,
        underrun_for: u64,
        playing_for: u64,
    },
}

/// Something that is sent to a client, or done to a buffer, in the order
/// given.
#[derive(Debug, Clone, Copy, PartialEq, Eq, Structural)]
pub enum Output {
    Reply { seq: u32, version: u16, reply: Reply },
    Ack { seq: u32 },
    Error { seq: u32, error: PulseError },
    Stream(StreamMessage),
    ClearBuffer { channel: u32 },
}

/// The first of the formats that makes sense, if the client left the choice to
/// the server.
pub open spec fn first_valid(formats: Seq<FormatPropsView>, from: int) -> Option<SampleSpec>
    decreases formats.len() - from,
{
    if 0 <= from < formats.len() {
        match format_spec(formats[from]) {
            Ok(spec) => Some(spec),
            Err(_) => first_valid(formats, from + 1),
        }
    } else {
        None
    }
}

pub open spec fn chosen_spec(
    sample_spec: SampleSpec,
    formats: Seq<FormatPropsView>,
) -> SampleSpec {
    if sample_spec.format == SampleFormat::Invalid {
        match first_valid(formats, 0) {
            Some(spec) => spec,
            None => sample_spec,
        }
    } else {
        sample_spec
    }
}

fn choose_spec(sample_spec: SampleSpec, formats: &Vec<FormatProps>) -> (spec: SampleSpec)
    ensures
        spec == chosen_spec(sample_spec, format_views(formats@)),
{
    if sample_spec.format == SampleFormat::Invalid {
        let mut i: usize = 0;
        while i < formats.len()
            invariant
                i <= formats@.len(),
                sample_spec.format == SampleFormat::Invalid,
                first_valid(format_views(formats@), 0) == first_valid(
                    format_views(formats@),
                    i as int,
                ),
            decreases formats.len() - i,
        {
            if let Ok(spec) = sample_spec_from_format(&formats[i]) {
                return spec;
            }
            i += 1;
        }
    }
    sample_spec
}

/// The lengths that are chosen for a stream.
pub open spec fn chosen_attr(attr: BufferAttr, spec: SampleSpec) -> BufferAttr {
    BufferAttr {
        max_length: crate::audio::playback::chosen_max_length(attr, spec) as u32,
        minimum_request_length: crate::audio::playback::chosen_request_length(attr, spec) as u32,
        target_length: crate::audio::playback::chosen_target_length(attr, spec) as u32,
        pre_buffering: crate::audio::playback::chosen_pre_buffering(attr, spec) as u32,
        fragment_size: attr.fragment_size,
    }
}

/// The commands that can be carried out: there is a card to describe, and the
/// lengths and the number of a new stream can be represented.
pub open spec fn acceptable(state: PulseState, command: CommandView) -> bool {
    match command {
        CommandView::GetCardInfo => state.cards > 0,
        CommandView::CreatePlaybackStream { sample_spec, formats, buffer_attr, .. } => {
            &&& state.next_playback_channel_index < u32::MAX
            &&& crate::audio::playback::configurable(
                buffer_attr,
                chosen_spec(sample_spec, formats),
            )
        },
        _ => true,
    }
}

/// Whether a command can be carried out.
pub fn is_acceptable(state: &PulseState, command: &Command) -> (possible: bool)
    ensures
        possible == acceptable(*state, command@),
{
    match command {
        Command::GetCardInfo => state.cards > 0,
        Command::CreatePlaybackStream { sample_spec, formats, buffer_attr, .. } => {
            state.next_playback_channel_index < u32::MAX && is_configurable(
                buffer_attr,
                &choose_spec(*sample_spec, formats),
            )
        },
        _ => true,
    }
}

/// The answer to a command that changes nothing.
pub open spec fn fixed_answer(
    client: PulseClientView,
    seq: u32,
    command: CommandView,
) -> Option<Output> {
    let version = client.protocol_version;
    match command {
        CommandView::SetClientName => Some(
            Output::Reply { seq, version, reply: Reply::ClientName { client_id: client.id } },
        ),
        CommandView::GetServerInfo => Some(Output::Reply { seq, version, reply: Reply::ServerInfo }),
        CommandView::GetClientInfo { id } => Some(
            Output::Reply { seq, version, reply: Reply::ClientInfo { index: id } },
        ),
        CommandView::GetClientInfoList => Some(
            Output::Reply { seq, version, reply: Reply::EmptyClientInfoList },
        ),
        CommandView::GetCardInfo => Some(Output::Reply { seq, version, reply: Reply::CardInfo }),
        CommandView::GetCardInfoList => Some(
            Output::Reply { seq, version, reply: Reply::CardInfoList },
        ),
        CommandView::GetSinkInfo => Some(Output::Reply { seq, version, reply: Reply::SinkInfo }),
        CommandView::GetSinkInfoList => Some(
            Output::Reply { seq, version, reply: Reply::SinkInfoList },
        ),
        CommandView::GetSinkInputInfoList => Some(
            Output::Reply { seq, version, reply: Reply::EmptySinkInputInfoList },
        ),
        CommandView::GetSourceInfo => Some(Output::Error { seq, error: PulseError::NoEntity }),
        CommandView::GetSourceOutputInfoList => Some(
            Output::Reply { seq, version, reply: Reply::EmptySourceOutputInfoList },
        ),
        CommandView::GetSourceInfoList => Some(
            Output::Reply { seq, version, reply: Reply::EmptySourceInfoList },
        ),
        CommandView::Subscribe => Some(Output::Ack { seq }),
        CommandView::UpdatePlaybackStreamProplist => Some(Output::Ack { seq }),
        CommandView::Extension => Some(Output::Error { seq, error: PulseError::NoExtension }),
        CommandView::Other => Some(Output::Error { seq, error: PulseError::NotImplemented }),
        _ => None,
    }
}

/// A client, with one of its streams changed, if it has that stream.
pub open spec fn with_stream(
    client: PulseClientView,
    channel: u32,
    stream: PlaybackStream,
) -> PulseClientView {
    if client.streams.contains_key(channel) {
        PulseClientView { streams: client.streams.insert(channel, stream), ..client }
    } else {
        client
    }
}

/// What a command changes, and how it is answered.
pub open spec fn command_effect(
    client: PulseClientView,
    state: PulseState,
    seq: u32,
    command: CommandView,
) -> (PulseClientView, PulseState, Seq<Output>) {
    match command {
        CommandView::Auth { version } => {
            let spoken = if version < MAX_VERSION { version } else { MAX_VERSION };
            (
                PulseClientView { protocol_version: spoken, ..client },
                state,
                seq![
                    Output::Reply {
                        seq,
                        version: spoken,
                        reply: Reply::Auth { version: MAX_VERSION },
                    },
                ],
            )
        },
        CommandView::CreatePlaybackStream { sample_spec, formats, buffer_attr, start_corked } => {
            let spec = chosen_spec(sample_spec, formats);
            let attr = chosen_attr(buffer_attr, spec);
            let channel = state.next_playback_channel_index;
            (
                PulseClientView {
                    streams: client.streams.insert(
                        channel,
                        PlaybackStream::spec_new(attr, start_corked),
                    ),
                    ..client
                },
                PulseState { next_playback_channel_index: (channel + 1) as u32, ..state },
                seq![
                    Output::Reply {
                        seq,
                        version: client.protocol_version,
                        reply: Reply::PlaybackStream {
                            channel,
                            stream_index: 500,
                            sample_spec: spec,
                            buffer_attr: attr,
                            requested_bytes: attr.target_length,
                            stream_latency: 10000,
                        },
                    },
                ],
            )
        },
        CommandView::DrainPlaybackStream { channel } => (
            with_stream(
                client,
                channel,
                PlaybackStream { state: StreamState::Draining(seq), ..client.streams[channel] },
            ),
            state,
            Seq::empty(),
        ),
        CommandView::GetPlaybackLatency { channel } => (
            client,
            state,
            if client.streams.contains_key(channel) {
                let stream = client.streams[channel];
                seq![
                    Output::Reply {
                        seq,
                        version: client.protocol_version,
                        reply: Reply::PlaybackLatency {
                            sink_usec: 10000,
                            source_usec: 0,
                            playing: stream.state is Playing,
                            write_offset: stream.write_offset as i64,
                            read_offset: stream.read_offset as i64,
                            underrun_for: u64::MAX,
                            playing_for: stream.played_bytes,
                        },
                    },
                ]
            } else {
                Seq::empty()
            },
        ),
        CommandView::CorkPlaybackStream { channel, cork, buffer_len } => {
            let stream = client.streams[channel];
            let request = crate::audio::playback::cork_request(stream, channel, cork, buffer_len);
            (
                with_stream(
                    client,
                    channel,
                    crate::audio::playback::corked(stream, cork, buffer_len),
                ),
                state,
                if client.streams.contains_key(channel) && request is Some {
                    seq![Output::Stream(request->0), Output::Ack { seq }]
                } else {
                    seq![Output::Ack { seq }]
                },
            )
        },
        CommandView::FlushPlaybackStream { channel } => (
            with_stream(
                client,
                channel,
                crate::audio::playback::flushed(client.streams[channel]),
            ),
            state,
            if client.streams.contains_key(channel) {
                seq![Output::ClearBuffer { channel }, Output::Ack { seq }]
            } else {
                seq![Output::Ack { seq }]
            },
        ),
        other => (client, state, seq![fixed_answer(client, seq, other)->0]),
    }
}

impl PulseClient {
    pub fn new(id: u32) -> (client: PulseClient)
        ensures
            client@ == (PulseClientView {
                id,
                protocol_version: MAX_VERSION,
                streams: Map::empty(),
            }),
    {
        PulseClient { id, protocol_version: MAX_VERSION, playback_streams: BTreeMap::new() }
    }

    fn answer(&self, seq: u32, command: &Command) -> (output: Option<Output>)
        ensures
            output == fixed_answer(self@, seq, command@),
    {
        let version: u16 = self.protocol_version;
        let reply = match command {
            Command::SetClientName => Reply::ClientName { client_id: self.id },
            Command::GetServerInfo => Reply::ServerInfo,
            Command::GetClientInfo { id } => Reply::ClientInfo { index: *id },
            Command::GetClientInfoList => Reply::EmptyClientInfoList,
            Command::GetCardInfo => Reply::CardInfo,
            Command::GetCardInfoList => Reply::CardInfoList,
            Command::GetSinkInfo => Reply::SinkInfo,
            Command::GetSinkInfoList => Reply::SinkInfoList,
            Command::GetSinkInputInfoList => Reply::EmptySinkInputInfoList,
            Command::GetSourceInfo => {
                return Some(Output::Error { seq, error: PulseError::NoEntity });
            },
            Command::GetSourceOutputInfoList => Reply::EmptySourceOutputInfoList,
            Command::GetSourceInfoList => Reply::EmptySourceInfoList,
            Command::Subscribe => {
                return Some(Output::Ack { seq });
            },
            Command::UpdatePlaybackStreamProplist => {
                return Some(Output::Ack { seq });
            },
            Command::Extension => {
                return Some(Output::Error { seq, error: PulseError::NoExtension });
            },
            Command::Other => {
                return Some(Output::Error { seq, error: PulseError::NotImplemented });
            },
            _ => {
                return None;
            },
        };
        Some(Output::Reply { seq, version, reply })
    }

    fn create_stream(
        &mut self,
        state: &mut PulseState,
        seq: u32,
        sample_spec: SampleSpec,
        formats: Vec<FormatProps>,
        buffer_attr: BufferAttr,
        start_corked: bool,
    ) -> (output: Output)
        requires
            acceptable(
                *old(state),
                CommandView::CreatePlaybackStream {
                    sample_spec,
                    formats: format_views(formats@),
                    buffer_attr,
                    start_corked,
                },
            ),
        ensures
            (final(self)@, *final(state), seq![output]) == command_effect(
                old(self)@,
                *old(state),
                seq,
                CommandView::CreatePlaybackStream {
                    sample_spec,
                    formats: format_views(formats@),
                    buffer_attr,
                    start_corked,
                },
            ),
    {
        let ghost before = self@;
        let spec = choose_spec(sample_spec, &formats);
        let mut attr: BufferAttr = buffer_attr;
        configure_buffer(&mut attr, &spec);
        let stream = PlaybackStream::new(attr, start_corked);
        let channel: u32 = state.next_playback_channel_index;
        state.next_playback_channel_index = channel + 1;
        self.playback_streams.insert(channel, stream);
        assert(self@ =~= PulseClientView {
            streams: before.streams.insert(channel, stream),
            ..before
        });
        Output::Reply {
            seq,
            version: self.protocol_version,
            reply: Reply::PlaybackStream {
                channel,
                stream_index: 500,
                sample_spec: spec,
                buffer_attr: attr,
                requested_bytes: attr.target_length,
                stream_latency: 10000,
            },
        }
    }

    /// Carries out a command, and returns what is sent and done in turn.
    pub fn handle_command(&mut self, state: &mut PulseState, seq: u32, command: Command) -> (
        outputs: Vec<Output>)
        requires
            acceptable(*old(state), command@),
        ensures
            (final(self)@, *final(state), outputs@) == command_effect(
                old(self)@,
                *old(state),
                seq,
                command@,
            ),
    {
        let ghost before = self@;
        let mut outputs: Vec<Output> = Vec::new();
        if let Some(output) = self.answer(seq, &command) {
            outputs.push(output);
            assert(outputs@ =~= seq![output]);
            return outputs;
        }
        match command {
            Command::Auth { version } => {
                self.protocol_version =
                if version < MAX_VERSION {
                    version
                } else {
                    MAX_VERSION
                };
                outputs.push(
                    Output::Reply {
                        seq,
                        version: self.protocol_version,
                        reply: Reply::Auth { version: MAX_VERSION },
                    },
                );
            },
            Command::CreatePlaybackStream { sample_spec, formats, buffer_attr, start_corked } => {
                let output = self.create_stream(
                    state,
                    seq,
                    sample_spec,
                    formats,
                    buffer_attr,
                    start_corked,
                );
                outputs.push(output);
                assert(outputs@ =~= seq![output]);
            },
            Command::DrainPlaybackStream { channel } => {
                if let Some(mut stream) = self.playback_streams.remove(&channel) {
                    stream.state = StreamState::Draining(seq);
                    self.playback_streams.insert(channel, stream);
                }
            },
            Command::GetPlaybackLatency { channel } => {
                if let Some(stream) = self.playback_streams.get(&channel) {
                    outputs.push(
                        Output::Reply {
                            seq,
                            version: self.protocol_version,
                            reply: Reply::PlaybackLatency {
                                sink_usec: 10000,
                                source_usec: 0,
                                playing: stream.state == StreamState::Playing,
                                write_offset: stream.write_offset as i64,
                                read_offset: stream.read_offset as i64,
                                underrun_for: u64::MAX,
                                playing_for: stream.played_bytes,
                            },
                        },
                    );
                }
            },
            Command::CorkPlaybackStream { channel, cork, buffer_len } => {
                if let Some(mut stream) = self.playback_streams.remove(&channel) {
                    if let Some(request) = stream.cork(channel, cork, buffer_len) {
                        outputs.push(Output::Stream(request));
                    }
                    self.playback_streams.insert(channel, stream);
                }
                outputs.push(Output::Ack { seq });
            },
            Command::FlushPlaybackStream { channel } => {
                if let Some(mut stream) = self.playback_streams.remove(&channel) {
                    stream.flush();
                    outputs.push(Output::ClearBuffer { channel });
                    self.playback_streams.insert(channel, stream);
                }
                outputs.push(Output::Ack { seq });
            },
            _ => {},
        }
        proof {
            let effect = command_effect(before, *old(state), seq, command@);
            assert(self@.streams =~= effect.0.streams);
            assert(self@ =~= effect.0);
            assert(outputs@ =~= effect.2);
        }
        outputs
    }

    /// Handles a packet on the control channel.
    pub fn recv(&mut self, state: &mut PulseState, received: Received) -> (result: Result<
        Vec<Output>,
        BrokenProtocol,
    >)
        requires
            received matches Received::Command { command, .. } ==> acceptable(*old(state), command@),
        ensures
            match received {
                Received::Command { seq, command } => result matches Ok(outputs) && (
                    final(self)@,
                    *final(state),
                    outputs@,
                ) == command_effect(old(self)@, *old(state), seq, command@),
                Received::Unimplemented { seq } => {
                    &&& final(self)@ == old(self)@
                    &&& *final(state) == *old(state)
                    &&& result matches Ok(outputs) && outputs@ == seq![
                        Output::Error { seq, error: PulseError::NotImplemented },
                    ]
                },
                Received::Malformed => {
                    &&& final(self)@ == old(self)@
                    &&& *final(state) == *old(state)
                    &&& result is Err
                },
            },
    {
        match received {
            Received::Command { seq, command } => Ok(self.handle_command(state, seq, command)),
            Received::Unimplemented { seq } => {
                let mut outputs: Vec<Output> = Vec::new();
                outputs.push(Output::Error { seq, error: PulseError::NotImplemented });
                assert(outputs@ =~= seq![
                    Output::Error { seq, error: PulseError::NotImplemented },
                ]);
                Ok(outputs)
            },
            Received::Malformed => Err(BrokenProtocol),
        }
    }

    /// Decodes and handles a packet on the control channel; `lens` tells how
    /// much the buffers of the streams hold.
    pub fn recv_packet(
        &mut self,
        state: &mut PulseState,
        payload: &Vec<u8>,
        lens: &Vec<BufferLen>,
    ) -> (result: Result<Vec<Output>, PacketError>)
        ensures
            ({
                let received = crate::audio::decode::packet_read(
                    crate::audio::decode::read_command_of(
                        payload@,
                        old(self)@.protocol_version,
                    ),
                    lens@,
                );
                if !crate::audio::decode::decodable(payload@) || (received matches
                    ReceivedView::Command { command, .. } && !acceptable(*old(state), command)) {
                    &&& result == Err::<Vec<Output>, PacketError>(PacketError::Impossible)
                    &&& final(self)@ == old(self)@
                    &&& *final(state) == *old(state)
                } else {
                    match received {
                        ReceivedView::Command { seq, command } => result matches Ok(outputs) && (
                            final(self)@,
                            *final(state),
                            outputs@,
                        ) == command_effect(old(self)@, *old(state), seq, command),
                        ReceivedView::Unimplemented { seq } => {
                            &&& final(self)@ == old(self)@
                            &&& *final(state) == *old(state)
                            &&& result matches Ok(outputs) && outputs@ == seq![
                                Output::Error { seq, error: PulseError::NotImplemented },
                            ]
                        },
                        ReceivedView::Malformed => {
                            &&& final(self)@ == old(self)@
                            &&& *final(state) == *old(state)
                            &&& result == Err::<Vec<Output>, PacketError>(PacketError::Malformed)
                        },
                    }
                }
            }),
    {
        if !is_decodable(payload) {
            return Err(PacketError::Impossible);
        }
        let received = decode_packet(payload, self.protocol_version, lens);
        if let Received::Command { command, .. } = &received {
            if !is_acceptable(state, command) {
                return Err(PacketError::Impossible);
            }
        }
        match self.recv(state, received) {
            Ok(outputs) => Ok(outputs),
            Err(_) => Err(PacketError::Malformed),
        }
    }

    /// Takes samples for a stream. Returns how many bytes of them go into its
    /// buffer, which holds `buffer_len` bytes.
    pub fn handle_stream_write(
        &mut self,
        channel: u32,
        offset: u64,
        len: usize,
        buffer_len: usize,
    ) -> (result: Result<(usize, Vec<StreamMessage>), WriteError>)
        requires
            old(self)@.streams.contains_key(channel) ==> old(self)@.streams[channel].write_offset
                + len <= u64::MAX,
        ensures
            ({
                let stream = old(self)@.streams[channel];
                if !old(self)@.streams.contains_key(channel) {
                    &&& result == Err::<(usize, Vec<StreamMessage>), WriteError>(
                        WriteError::InvalidChannel,
                    )
                    &&& final(self)@ == old(self)@
                } else if offset != 0 {
                    &&& result == Err::<(usize, Vec<StreamMessage>), WriteError>(
                        WriteError::SeekNotSupported,
                    )
                    &&& final(self)@ == old(self)@
                } else {
                    &&& result is Ok
                    &&& result->Ok_0.0 == crate::audio::playback::accepted_bytes(
                        stream,
                        buffer_len,
                        len,
                    )
                    &&& result->Ok_0.1@ == crate::audio::playback::write_messages(
                        stream,
                        channel,
                        buffer_len,
                        len,
                    )
                    &&& final(self)@ == (PulseClientView {
                        streams: old(self)@.streams.insert(
                            channel,
                            crate::audio::playback::written(stream, buffer_len, len),
                        ),
                        ..old(self)@
                    })
                }
            }),
    {
        let ghost before = self@;
        match self.playback_streams.get(&channel) {
            None => Err(WriteError::InvalidChannel),
            Some(stream) => {
                if offset != 0 {
                    return Err(WriteError::SeekNotSupported);
                }
                let mut stream: PlaybackStream = *stream;
                let result = stream.write(channel, buffer_len, len);
                self.playback_streams.insert(channel, stream);
                assert(self@ =~= PulseClientView {
                    streams: before.streams.insert(channel, stream),
                    ..before
                });
                Ok(result)
            },
        }
    }

    /// One tick of the clock for all streams of a client; `levels` gives, for
    /// each of them, how full its buffer is. Streams that are drained are
    /// dropped, and the requests to drain them answered.
    pub fn clock_tick(&mut self, levels: &Vec<BufferLevel>) -> (messages: Vec<StreamMessage>)
        requires
            levels_fit(old(self)@.streams, levels@),
        ensures
            ({
                let (streams, messages_sent, done) = tick_all(old(self)@.streams, levels@);
                &&& messages@ == messages_sent + acks(streams, done)
                &&& final(self)@ == (PulseClientView {
                    streams: streams.remove_keys(done.to_set()),
                    ..old(self)@
                })
            }),
    {
        let ghost before = self@;
        let mut messages: Vec<StreamMessage> = Vec::new();
        let mut done: Vec<u32> = Vec::new();
        let mut i: usize = 0;
        while i < levels.len()
            invariant
                i <= levels@.len(),
                levels_fit(before.streams, levels@),
                ({
                    let (streams, sent, finished) = tick_all(
                        before.streams,
                        levels@.take(i as int),
                    );
                    &&& messages@ == sent
                    &&& done@ == finished
                    &&& self@ == (PulseClientView { streams, ..before })
                }),
            decreases levels.len() - i,
        {
            let level: BufferLevel = levels[i];
            let ghost streams = self@.streams;
            proof {
                assert(levels@.take(i + 1).drop_last() =~= levels@.take(i as int));
                lemma_untouched(before.streams, levels@, i as int);
            }
            if let Some(mut stream) = self.playback_streams.remove(&level.channel) {
                let (finished, mut sent) = stream.tick(level);
                messages.append(&mut sent);
                if finished {
                    done.push(level.channel);
                }
                self.playback_streams.insert(level.channel, stream);
            }
            assert(self@.streams =~= tick_all(before.streams, levels@.take(i + 1)).0);
            assert(self@ =~= PulseClientView {
                streams: tick_all(before.streams, levels@.take(i + 1)).0,
                ..before
            });
            assert(messages@ =~= tick_all(before.streams, levels@.take(i + 1)).1);
            i += 1;
        }
        assert(levels@.take(i as int) =~= levels@);
        let ghost streams = self@.streams;
        let ghost sent = messages@;
        let mut j: usize = 0;
        proof {
            assert(done@.take(0).to_set() =~= Set::empty());
            assert(streams.remove_keys(Set::empty()) =~= streams);
            assert(acks(streams, done@.take(0)) =~= Seq::empty());
            assert(sent + Seq::empty() =~= sent);
            lemma_done_are_draining(before.streams, levels@);
        }
        while j < done.len()
            invariant
                j <= done@.len(),
                messages@ == sent + acks(streams, done@.take(j as int)),
                self@ == (PulseClientView {
                    streams: streams.remove_keys(done@.take(j as int).to_set()),
                    ..before
                }),
                done@.no_duplicates(),
                forall|k: int|
                    0 <= k < done@.len() ==> streams.contains_key(#[trigger] done@[k])
                        && streams[done@[k]].state is Draining,
            decreases done.len() - j,
        {
            let id: u32 = done[j];
            proof {
                assert(streams.contains_key(done@[j as int]));
                assert(!done@.take(j as int).contains(id)) by {
                    if done@.take(j as int).contains(id) {
                        let k = done@.take(j as int).index_of(id);
                        assert(done@[k] == done@[j as int]);
                    }
                }
                assert(done@.take(j + 1) =~= done@.take(j as int).push(id));
                assert(done@.take(j + 1).drop_last() =~= done@.take(j as int));
                done@.take(j as int).lemma_push_to_set_commute(id);
            }
            if let Some(stream) = self.playback_streams.remove(&id) {
                if let StreamState::Draining(seq) = stream.state {
                    messages.push(StreamMessage::Ack { seq });
                }
            }
            proof {
                assert(streams.remove_keys(done@.take(j as int).to_set()).remove(id)
                    =~= streams.remove_keys(done@.take(j + 1).to_set()));
                assert(self@ =~= PulseClientView {
                    streams: streams.remove_keys(done@.take(j + 1).to_set()),
                    ..before
                });
                assert(messages@ =~= sent + acks(streams, done@.take(j + 1)));
            }
            j += 1;
        }
        assert(done@.take(j as int) =~= done@);
        messages
    }
}

/// The levels are those of different streams, and leave room for a tick.
pub open spec fn levels_fit(
    streams: Map<u32, PlaybackStream>,
    levels: Seq<BufferLevel>,
) -> bool {
    &&& forall|i: int, j: int|
        0 <= i < j < levels.len() ==> (#[trigger] levels[i]).channel != (
        #[trigger] levels[j]).channel
    &&& forall|i: int|
        0 <= i < levels.len() && streams.contains_key((#[trigger] levels[i]).channel)
            ==> crate::audio::playback::can_tick(streams[levels[i].channel], levels[i])
}

/// The streams after a tick, what their client is told, and which are drained.
pub open spec fn tick_all(streams: Map<u32, PlaybackStream>, levels: Seq<BufferLevel>) -> (
    Map<u32, PlaybackStream>,
    Seq<StreamMessage>,
    Seq<u32>,
)
    decreases levels.len(),
{
    if levels.len() == 0 {
        (streams, Seq::empty(), Seq::empty())
    } else {
        let (rest, messages, done) = tick_all(streams, levels.drop_last());
        let level = levels.last();
        if rest.contains_key(level.channel) {
            let stream = rest[level.channel];
            (
                rest.insert(level.channel, crate::audio::playback::ticked(stream, level)),
                messages + crate::audio::playback::tick_messages(stream, level),
                if crate::audio::playback::drained(stream, level) {
                    done.push(level.channel)
                } else {
                    done
                },
            )
        } else {
            (rest, messages, done)
        }
    }
}

/// The answers to the requests to drain streams.
pub open spec fn acks(streams: Map<u32, PlaybackStream>, done: Seq<u32>) -> Seq<StreamMessage>
    decreases done.len(),
{
    if done.len() == 0 {
        Seq::empty()
    } else {
        acks(streams, done.drop_last()).push(
            StreamMessage::Ack { seq: streams[done.last()].state->Draining_0 },
        )
    }
}

proof fn lemma_tick_keeps_others(
    streams: Map<u32, PlaybackStream>,
    levels: Seq<BufferLevel>,
    channel: u32,
)
    requires
        forall|i: int| 0 <= i < levels.len() ==> (#[trigger] levels[i]).channel != channel,
    ensures
        ({
            let after = tick_all(streams, levels).0;
            &&& after.contains_key(channel) == streams.contains_key(channel)
            &&& streams.contains_key(channel) ==> after[channel] == streams[channel]
        }),
    decreases levels.len(),
{
    if levels.len() > 0 {
        let init = levels.drop_last();
        assert forall|i: int| 0 <= i < init.len() implies (#[trigger] init[i]).channel
            != channel by {
            assert(init[i] == levels[i]);
        }
        lemma_tick_keeps_others(streams, init, channel);
        assert(levels.last() == levels[levels.len() - 1]);
    }
}

proof fn lemma_untouched(
    streams: Map<u32, PlaybackStream>,
    levels: Seq<BufferLevel>,
    i: int,
)
    requires
        levels_fit(streams, levels),
        0 <= i < levels.len(),
    ensures
        ({
            let after = tick_all(streams, levels.take(i)).0;
            let channel = levels[i].channel;
            &&& after.contains_key(channel) == streams.contains_key(channel)
            &&& streams.contains_key(channel) ==> after[channel] == streams[channel]
        }),
{
    let head = levels.take(i);
    assert forall|j: int| 0 <= j < head.len() implies (#[trigger] head[j]).channel
        != levels[i].channel by {
        assert(head[j] == levels[j]);
    }
    lemma_tick_keeps_others(streams, head, levels[i].channel);
}

proof fn lemma_done_are_draining(streams: Map<u32, PlaybackStream>, levels: Seq<BufferLevel>)
    requires
        levels_fit(streams, levels),
    ensures
        ({
            let (after, messages, done) = tick_all(streams, levels);
            &&& done.no_duplicates()
            &&& forall|k: int|
                0 <= k < done.len() ==> after.contains_key(#[trigger] done[k])
                    && after[done[k]].state is Draining
            &&& forall|k: int|
                0 <= k < done.len() ==> exists|i: int|
                    0 <= i < levels.len() && (#[trigger] levels[i]).channel == #[trigger] done[k]
        }),
    decreases levels.len(),
{
    if levels.len() > 0 {
        let init = levels.drop_last();
        let last = levels.last();
        let n = levels.len() - 1;
        assert(last == levels[n]);
        assert(levels_fit(streams, init)) by {
            assert forall|i: int, j: int| 0 <= i < j < init.len() implies (
            #[trigger] init[i]).channel != (#[trigger] init[j]).channel by {
                assert(init[i] == levels[i] && init[j] == levels[j]);
            }
            assert forall|i: int|
                0 <= i < init.len() && streams.contains_key(
                    (#[trigger] init[i]).channel,
                ) implies crate::audio::playback::can_tick(
                streams[init[i].channel],
                init[i],
            ) by {
                assert(init[i] == levels[i]);
            }
        }
        lemma_done_are_draining(streams, init);
        let (rest, messages, done) = tick_all(streams, init);
        let (after, all, finished) = tick_all(streams, levels);
        assert forall|k: int| 0 <= k < done.len() implies done[k] != last.channel by {
            let i = choose|i: int|
                0 <= i < init.len() && (#[trigger] init[i]).channel == done[k];
            assert(init[i] == levels[i]);
        }
        assert forall|k: int| 0 <= k < finished.len() implies exists|i: int|
            0 <= i < levels.len() && (#[trigger] levels[i]).channel == #[trigger] finished[k] by {
            if k < done.len() {
                let i = choose|i: int|
                    0 <= i < init.len() && (#[trigger] init[i]).channel == done[k];
                assert(levels[i].channel == finished[k]);
            } else {
                assert(levels[n].channel == finished[k]);
            }
        }
    }
}

/// The audio server: its clients, by token.
pub struct PulseServer {
    pub clients: BTreeMap<u32, PulseClient>,
    pub state: PulseState,
    pub next_client_token: u32,
}

impl PulseServer {
    /// Tokens are given out once.
    pub open spec fn wf(self) -> bool {
        &&& self.next_client_token >= FIRST_CLIENT_TOKEN
        &&& forall|token: u32| #[trigger]
            self.clients@.contains_key(token) ==> token < self.next_client_token
                && self.clients@[token].id == token
    }

    pub fn new() -> (server: PulseServer)
        ensures
            server.wf(),
            server.clients@ == Map::<u32, PulseClient>::empty(),
            server.state == (PulseState { cards: 0, next_playback_channel_index: 0 }),
            server.next_client_token == FIRST_CLIENT_TOKEN,
    {
        PulseServer {
            clients: BTreeMap::new(),
            state: PulseState { cards: 0, next_playback_channel_index: 0 },
            next_client_token: FIRST_CLIENT_TOKEN,
        }
    }

    /// Adds a client that connected. Returns its token, which is also its id.
    pub fn accept(&mut self) -> (token: u32)
        requires
            old(self).wf(),
            old(self).next_client_token < u32::MAX,
        ensures
            final(self).wf(),
            token == old(self).next_client_token,
            !old(self).clients@.contains_key(token),
            final(self).next_client_token == token + 1,
            final(self).state == old(self).state,
            final(self).clients@.dom() == old(self).clients@.dom().insert(token),
            final(self).clients@[token]@ == (PulseClientView {
                id: token,
                protocol_version: MAX_VERSION,
                streams: Map::empty(),
            }),
            forall|other: u32| #[trigger]
                old(self).clients@.contains_key(other) ==> final(self).clients@[other] == old(
                    self).clients@[other],
    {
        let token: u32 = self.next_client_token;
        self.next_client_token = token + 1;
        self.clients.insert(token, PulseClient::new(token));
        assert(self.clients@.dom() =~= old(self).clients@.dom().insert(token));
        token
    }

    /// Drops a client that disconnected or broke the protocol.
    pub fn remove(&mut self, token: u32) -> (known: bool)
        requires
            old(self).wf(),
        ensures
            final(self).wf(),
            known == old(self).clients@.contains_key(token),
            final(self).clients@ == old(self).clients@.remove(token),
            final(self).state == old(self).state,
            final(self).next_client_token == old(self).next_client_token,
    {
        self.clients.remove(&token).is_some()
    }
}

/// A request to drain is answered once the stream is empty, with the number
/// that it had; the stream is gone then.
pub proof fn drain_is_answered(
    client: PulseClientView,
    state: PulseState,
    seq: u32,
    channel: u32,
    before: usize,
)
    requires
        client.streams.contains_key(channel),
    ensures
        ({
            let draining = command_effect(
                client,
                state,
                seq,
                CommandView::DrainPlaybackStream { channel },
            ).0.streams;
            let level = BufferLevel { channel, before, after: Some(0) };
            let (streams, messages, done) = tick_all(draining, seq![level]);
            &&& done == seq![channel]
            &&& acks(streams, done) == seq![StreamMessage::Ack { seq }]
        }),
{
    let draining = command_effect(
        client,
        state,
        seq,
        CommandView::DrainPlaybackStream { channel },
    ).0.streams;
    let level = BufferLevel { channel, before, after: Some(0) };
    let levels = seq![level];
    assert(levels.drop_last() =~= Seq::empty());
    assert(tick_all(draining, levels.drop_last()) == (
        draining,
        Seq::<StreamMessage>::empty(),
        Seq::<u32>::empty(),
    ));
    let (streams, messages, done) = tick_all(draining, levels);
    assert(done =~= seq![channel]);
    assert(done.drop_last() =~= Seq::empty());
    assert(acks(streams, done.drop_last()) =~= Seq::empty());
    assert(streams[channel].state == StreamState::Draining(seq));
    assert(acks(streams, done) =~= seq![StreamMessage::Ack { seq }]);
}

/// A client never gets a version that it did not offer, nor one that is not
/// spoken.
pub proof fn version_is_negotiated(
    client: PulseClientView,
    state: PulseState,
    seq: u32,
    version: u16,
)
    ensures
        ({
            let spoken = command_effect(
                client,
                state,
                seq,
                CommandView::Auth { version },
            ).0.protocol_version;
            spoken <= version && spoken <= MAX_VERSION && (spoken == version || spoken
                == MAX_VERSION)
        }),
{
}

/// A request for the latency is answered with what the stream has counted: the
/// bytes that it accepted, and those that were played.
pub proof fn latency_tells_offsets(
    client: PulseClientView,
    state: PulseState,
    seq: u32,
    channel: u32,
)
    requires
        client.streams.contains_key(channel),
        client.streams[channel].write_offset < 0x8000_0000_0000_0000,
        client.streams[channel].read_offset < 0x8000_0000_0000_0000,
    ensures
        ({
            let stream = client.streams[channel];
            let (after, shared, outputs) = command_effect(
                client,
                state,
                seq,
                CommandView::GetPlaybackLatency { channel },
            );
            &&& after == client && shared == state
            &&& outputs.len() == 1
            &&& outputs[0] matches Output::Reply {
                seq: answered,
                version,
                reply: Reply::PlaybackLatency {
                    sink_usec,
                    source_usec,
                    playing,
                    write_offset,
                    read_offset,
                    playing_for,
                    underrun_for,
                },
            } && answered == seq && version == client.protocol_version && write_offset
                == stream.write_offset && read_offset == stream.read_offset && playing_for
                == stream.played_bytes && (playing <==> stream.state is Playing) && sink_usec
                == 10000 && source_usec == 0 && underrun_for == 0xffff_ffff_ffff_ffff
        }),
{
}

/// After any writes, ticks and stops of a new stream, the latency tells how much
/// is buffered: what was accepted and not played yet.
pub proof fn latency_tells_buffered_bytes(
    client: PulseClientView,
    state: PulseState,
    seq: u32,
    channel: u32,
    stream: PlaybackStream,
    steps: Seq<crate::audio::playback::StreamStep>,
)
    requires
        crate::audio::playback::steps_agree(stream, steps),
        stream.write_offset == 0,
        stream.read_offset == 0,
        stream.played_bytes == 0,
        crate::audio::playback::bytes_accepted(stream, steps) < 0x8000_0000_0000_0000,
        client.streams.contains_key(channel),
        client.streams[channel] == crate::audio::playback::after_steps(stream, steps),
    ensures
        ({
            let outputs = command_effect(
                client,
                state,
                seq,
                CommandView::GetPlaybackLatency { channel },
            ).2;
            outputs.len() == 1 && (outputs[0] matches Output::Reply {
                reply: Reply::PlaybackLatency { write_offset, read_offset, .. },
                ..
            } && write_offset - read_offset == crate::audio::playback::bytes_accepted(stream, steps)
                - crate::audio::playback::bytes_played(stream, steps) && write_offset
                >= read_offset && write_offset == crate::audio::playback::bytes_accepted(
                stream,
                steps,
            ))
        }),
{
    crate::audio::playback::offsets_count_bytes(stream, steps);
    latency_tells_offsets(client, state, seq, channel);
}

/// The number of the request that something is the answer to, if it is one.
pub open spec fn answered(output: Output) -> Option<u32> {
    match output {
        Output::Reply { seq, .. } => Some(seq),
        Output::Ack { seq } => Some(seq),
        Output::Error { seq, .. } => Some(seq),
        _ => None,
    }
}

/// Every command is answered once, under its own number and in the version that
/// the client speaks, as the last that is done for it. Only a request to drain,
/// and one about a stream that does not exist, are not answered at once.
pub proof fn commands_are_answered_once(
    client: PulseClientView,
    state: PulseState,
    seq: u32,
    command: CommandView,
)
    ensures
        ({
            let (after, shared, outputs) = command_effect(client, state, seq, command);
            let waits = command is DrainPlaybackStream || (command matches
                CommandView::GetPlaybackLatency { channel } && !client.streams.contains_key(
                channel,
            ));
            &&& waits ==> outputs.len() == 0
            &&& !waits ==> outputs.len() > 0 && answered(outputs.last()) == Some(seq)
            &&& forall|i: int|
                0 <= i < outputs.len() - 1 ==> answered(#[trigger] outputs[i]) is None
            &&& !waits && (outputs.last() matches Output::Reply { version, .. }) ==> (
            outputs.last() matches Output::Reply { version, .. } && version
                == after.protocol_version)
        }),
{
}

/// The reply that a command ends with.
pub open spec fn reply_to(
    client: PulseClientView,
    state: PulseState,
    seq: u32,
    command: CommandView,
) -> Reply {
    command_effect(client, state, seq, command).2.last()->Reply_reply
}

/// The error that a command ends with.
pub open spec fn error_of(
    client: PulseClientView,
    state: PulseState,
    seq: u32,
    command: CommandView,
) -> PulseError {
    command_effect(client, state, seq, command).2.last()->error
}

/// Each question gets the answer to it.
#[verifier::spinoff_prover]
#[verifier::rlimit(40)]
pub proof fn questions_get_their_answers(client: PulseClientView, state: PulseState, seq: u32, id: u32)
    ensures
        ({
            &&& reply_to(client, state, seq, CommandView::SetClientName) == (Reply::ClientName { client_id: client.id })
            &&& reply_to(client, state, seq, CommandView::GetServerInfo) == Reply::ServerInfo
            &&& reply_to(client, state, seq, CommandView::GetClientInfo { id }) == (Reply::ClientInfo { index: id })
            &&& reply_to(client, state, seq, CommandView::GetClientInfoList) == Reply::EmptyClientInfoList
            &&& reply_to(client, state, seq, CommandView::GetCardInfo) == Reply::CardInfo
            &&& reply_to(client, state, seq, CommandView::GetCardInfoList) == Reply::CardInfoList
            &&& reply_to(client, state, seq, CommandView::GetSinkInfo) == Reply::SinkInfo
            &&& reply_to(client, state, seq, CommandView::GetSinkInfoList) == Reply::SinkInfoList
            &&& reply_to(client, state, seq, CommandView::GetSinkInputInfoList) == Reply::EmptySinkInputInfoList
            &&& reply_to(client, state, seq, CommandView::GetSourceOutputInfoList) == Reply::EmptySourceOutputInfoList
            &&& reply_to(client, state, seq, CommandView::GetSourceInfoList) == Reply::EmptySourceInfoList
            &&& error_of(client, state, seq, CommandView::GetSourceInfo) == PulseError::NoEntity
            &&& error_of(client, state, seq, CommandView::Extension) == PulseError::NoExtension
            &&& error_of(client, state, seq, CommandView::Other) == PulseError::NotImplemented
        }),
{
}

/// Only three commands are refused; everything else that is answered succeeds.
pub proof fn refused_commands(
    client: PulseClientView,
    state: PulseState,
    seq: u32,
    command: CommandView,
)
    ensures
        ({
            let outputs = command_effect(client, state, seq, command).2;
            (outputs.len() > 0 && outputs.last() is Error) <==> command is GetSourceInfo || command
                is Extension || command is Other
        }),
        ({
            let outputs = command_effect(client, state, seq, command).2;
            (outputs.len() > 0 && outputs.last() is Ack) <==> command is Subscribe || command
                is UpdatePlaybackStreamProplist || command is CorkPlaybackStream || command
                is FlushPlaybackStream
        }),
{
}

/// A new stream has a channel that no earlier one had, and the lengths that the
/// client is told; it is asked to be filled to its target.
pub proof fn created_stream_is_described(
    client: PulseClientView,
    state: PulseState,
    seq: u32,
    sample_spec: SampleSpec,
    formats: Seq<FormatPropsView>,
    buffer_attr: BufferAttr,
    start_corked: bool,
    other: u32,
)
    requires
        acceptable(
            state,
            CommandView::CreatePlaybackStream { sample_spec, formats, buffer_attr, start_corked },
        ),
    ensures
        ({
            let (after, shared, outputs) = command_effect(
                client,
                state,
                seq,
                CommandView::CreatePlaybackStream {
                    sample_spec,
                    formats,
                    buffer_attr,
                    start_corked,
                },
            );
            &&& outputs.len() == 1
            &&& outputs[0] matches Output::Reply {
                reply: Reply::PlaybackStream {
                    channel,
                    stream_index,
                    sample_spec: chosen,
                    buffer_attr: attr,
                    requested_bytes,
                    stream_latency,
                },
                ..
            } && channel == state.next_playback_channel_index && shared.next_playback_channel_index
                == channel + 1 && shared.cards == state.cards && after.streams.contains_key(channel)
                && after.streams[channel].buffer_attr == attr
                && after.streams[channel].requested_bytes == requested_bytes && requested_bytes
                == attr.target_length && attr.fragment_size == buffer_attr.fragment_size
                && attr.pre_buffering <= attr.target_length && stream_index == 500
                && stream_latency == 10000 && (start_corked ==> after.streams[channel].state
                is Corked) && (sample_spec.format != SampleFormat::Invalid ==> chosen
                == sample_spec) && attr.max_length
                == crate::audio::playback::chosen_max_length(buffer_attr, chosen)
                && attr.minimum_request_length == crate::audio::playback::chosen_request_length(
                buffer_attr,
                chosen,
            ) && (other != channel && client.streams.contains_key(other)
                ==> after.streams.contains_key(other) && after.streams[other]
                == client.streams[other])
            &&& after.id == client.id && after.protocol_version == client.protocol_version
        }),
{
    let spec = chosen_spec(sample_spec, formats);
    crate::audio::playback::configured_lengths_are_ordered(buffer_attr, spec);
    crate::audio::playback::lemma_chosen_fit(buffer_attr, spec);
}

/// A client that leaves the format open gets the first of its formats that makes
/// sense, and its own, if none does.
pub proof fn first_sensible_format_is_chosen(
    sample_spec: SampleSpec,
    formats: Seq<FormatPropsView>,
    i: int,
)
    requires
        sample_spec.format == SampleFormat::Invalid,
        0 <= i <= formats.len(),
        forall|j: int| 0 <= j < i ==> format_spec(#[trigger] formats[j]) is Err,
        i < formats.len() ==> format_spec(formats[i]) is Ok,
    ensures
        i < formats.len() ==> chosen_spec(sample_spec, formats) == format_spec(formats[i])->Ok_0,
        i == formats.len() ==> chosen_spec(sample_spec, formats) == sample_spec,
{
    lemma_first_valid(formats, 0, i);
}

proof fn lemma_first_valid(formats: Seq<FormatPropsView>, from: int, i: int)
    requires
        0 <= from <= i <= formats.len(),
        forall|j: int| from <= j < i ==> format_spec(#[trigger] formats[j]) is Err,
        i < formats.len() ==> format_spec(formats[i]) is Ok,
    ensures
        i < formats.len() ==> first_valid(formats, from) == Some(format_spec(formats[i])->Ok_0),
        i == formats.len() ==> first_valid(formats, from) is None,
    decreases i - from,
{
    if from < i {
        assert(format_spec(formats[from]) is Err);
        lemma_first_valid(formats, from + 1, i);
    }
}

/// A command on a stream changes no other stream, and one on a stream that does
/// not exist changes nothing.
pub proof fn other_streams_stay(
    client: PulseClientView,
    state: PulseState,
    seq: u32,
    channel: u32,
    cork: bool,
    buffer_len: usize,
    other: u32,
)
    requires
        other != channel,
    ensures
        ({
            let drain = command_effect(
                client,
                state,
                seq,
                CommandView::DrainPlaybackStream { channel },
            );
            let corked = command_effect(
                client,
                state,
                seq,
                CommandView::CorkPlaybackStream { channel, cork, buffer_len },
            );
            let flushed = command_effect(
                client,
                state,
                seq,
                CommandView::FlushPlaybackStream { channel },
            );
            &&& drain.0.streams.contains_key(other) == client.streams.contains_key(other)
            &&& drain.0.streams[other] == client.streams[other]
            &&& corked.0.streams.contains_key(other) == client.streams.contains_key(other)
            &&& corked.0.streams[other] == client.streams[other]
            &&& flushed.0.streams.contains_key(other) == client.streams.contains_key(other)
            &&& flushed.0.streams[other] == client.streams[other]
            &&& drain.1 == state && corked.1 == state && flushed.1 == state
            &&& !client.streams.contains_key(channel) ==> drain.0 == client && corked.0 == client
                && flushed.0 == client
        }),
{
}

/// The commands on a stream reach that stream: it drains under the number of the
/// request, is stopped or started, or is emptied.
pub proof fn stream_commands_reach_stream(
    client: PulseClientView,
    state: PulseState,
    seq: u32,
    channel: u32,
    buffer_len: usize,
)
    requires
        client.streams.contains_key(channel),
        buffer_len <= u32::MAX,
    ensures
        ({
            let before = client.streams[channel];
            let drained = command_effect(
                client,
                state,
                seq,
                CommandView::DrainPlaybackStream { channel },
            ).0.streams[channel];
            let stopped = command_effect(
                client,
                state,
                seq,
                CommandView::CorkPlaybackStream { channel, cork: true, buffer_len },
            ).0.streams[channel];
            let (started, shared, outputs) = command_effect(
                client,
                state,
                seq,
                CommandView::CorkPlaybackStream { channel, cork: false, buffer_len },
            );
            let (emptied, same, cleared) = command_effect(
                client,
                state,
                seq,
                CommandView::FlushPlaybackStream { channel },
            );
            &&& drained.state == StreamState::Draining(seq)
            &&& drained.write_offset == before.write_offset && drained.read_offset
                == before.read_offset && drained.buffer_attr == before.buffer_attr
            &&& before.state is Playing ==> stopped.state is Corked
            &&& before.state is Corked && buffer_len >= before.buffer_attr.target_length
                ==> started.streams[channel].state is Playing && outputs.len() == 1
            &&& before.state is Corked && buffer_len < before.buffer_attr.target_length
                ==> outputs.len() == 2 && outputs[0] == Output::Stream(
                StreamMessage::Request {
                    channel,
                    length: (before.buffer_attr.target_length - buffer_len) as u32,
                },
            )
            &&& emptied.streams[channel].read_offset == before.write_offset
            &&& emptied.streams[channel].requested_bytes == 0
            &&& cleared.len() == 2 && cleared[0] == (Output::ClearBuffer { channel })
        }),
{
}

/// The version that is spoken from then on is the lower of the two, and the
/// client is told the highest that the server speaks, in that version.
pub proof fn lower_version_is_spoken(
    client: PulseClientView,
    state: PulseState,
    seq: u32,
    version: u16,
)
    ensures
        ({
            let (after, shared, outputs) = command_effect(
                client,
                state,
                seq,
                CommandView::Auth { version },
            );
            &&& version <= 35 ==> after.protocol_version == version
            &&& version > 35 ==> after.protocol_version == 35
            &&& after.streams == client.streams && after.id == client.id && shared == state
            &&& outputs.len() == 1 && outputs[0] == (Output::Reply {
                seq,
                version: after.protocol_version,
                reply: Reply::Auth { version: 35 },
            })
        }),
{
}

/// A format is described by its name, its rate and its number of channels, each
/// in its own property; the first that is missing is what is wrong.
pub proof fn format_is_read_from_properties(props: FormatPropsView)
    ensures
        props.format is None ==> format_spec(props) == Err::<SampleSpec, FormatError>(
            FormatError::MissingFormat,
        ),
        props.format is Some && props.rate is None ==> format_spec(props) == Err::<
            SampleSpec,
            FormatError,
        >(FormatError::MissingRate),
        props.format is Some && props.rate is Some && props.channels is None ==> format_spec(props)
            == Err::<SampleSpec, FormatError>(FormatError::MissingChannels),
        format_spec(props) matches Ok(spec) ==> {
            &&& prop_text(props.format->0) matches Ok(name) && format_named(name) == Some(
                spec.format,
            )
            &&& prop_text(props.rate->0) matches Ok(rate) && crate::text::parsed(
                rate,
                0xffff_ffff,
            ) == Some(spec.sample_rate as nat)
            &&& prop_text(props.channels->0) matches Ok(channels) && crate::text::parsed(
                channels,
                255,
            ) == Some(spec.channels as nat)
            &&& spec.format != SampleFormat::Invalid
        },
{
}

/// The names of formats say what they are.
pub proof fn format_names(name: Seq<char>)
    ensures
        format_named(name) == Some(SampleFormat::S16Le) <==> name == "s16le"@,
        format_named(name) == Some(SampleFormat::S16Be) <==> name == "s16be"@,
        format_named(name) == Some(SampleFormat::U8) <==> name == "u8"@,
        format_named(name) == Some(SampleFormat::S32Le) <==> name == "s32le"@,
        format_named(name) == Some(SampleFormat::S32Be) <==> name == "s32be"@,
        format_named(name) == Some(SampleFormat::S24Le) <==> name == "s24le"@,
        format_named(name) == Some(SampleFormat::S24Be) <==> name == "s24be"@,
        format_named(name) == Some(SampleFormat::Float32Le) <==> name == "float32le"@,
        format_named(name) == Some(SampleFormat::Float32Be) <==> name == "float32be"@,
{
    reveal_strlit("s16le");
    reveal_strlit("s16be");
    reveal_strlit("u8");
    reveal_strlit("s32le");
    reveal_strlit("s32be");
    reveal_strlit("s24le");
    reveal_strlit("s24be");
    reveal_strlit("float32le");
    reveal_strlit("float32be");
    assert("s16le"@[3] == 'l' && "s16be"@[3] == 'b' && "s16le"@[1] == '1' && "s16be"@[1] == '1');
    assert("s32le"@[3] == 'l' && "s32be"@[3] == 'b' && "s32le"@[1] == '3' && "s32be"@[1] == '3');
    assert("s24le"@[3] == 'l' && "s24be"@[3] == 'b' && "s24le"@[1] == '2' && "s24be"@[1] == '2');
    assert("float32le"@[7] == 'l' && "float32be"@[7] == 'b');
    assert("float32le"@.len() == 9 && "float32be"@.len() == 9 && "u8"@.len() == 2);
    assert("s16le"@.len() == 5 && "s16be"@.len() == 5 && "s32le"@.len() == 5);
    assert("s32be"@.len() == 5 && "s24le"@.len() == 5 && "s24be"@.len() == 5);
}

/// At a tick, each stream is handled by itself: what is told of it and what
/// becomes of it follow from its own level.
pub proof fn tick_reaches_each_stream(
    streams: Map<u32, PlaybackStream>,
    levels: Seq<BufferLevel>,
    i: int,
)
    requires
        levels_fit(streams, levels),
        0 <= i < levels.len(),
        streams.contains_key(levels[i].channel),
    ensures
        ({
            let (after, messages, done) = tick_all(streams, levels);
            let channel = levels[i].channel;
            &&& after.contains_key(channel)
            &&& after[channel] == crate::audio::playback::ticked(streams[channel], levels[i])
            &&& done.contains(channel) <==> streams[channel].state is Draining && levels[i].after
                == Some(0usize)
        }),
    decreases levels.len(),
{
    let init = levels.drop_last();
    let last = levels.last();
    let n = levels.len() - 1;
    assert(last == levels[n]);
    assert(levels_fit(streams, init)) by {
        assert forall|a: int, b: int| 0 <= a < b < init.len() implies (
        #[trigger] init[a]).channel != (#[trigger] init[b]).channel by {
            assert(init[a] == levels[a] && init[b] == levels[b]);
        }
        assert forall|a: int|
            0 <= a < init.len() && streams.contains_key(
                (#[trigger] init[a]).channel,
            ) implies crate::audio::playback::can_tick(streams[init[a].channel], init[a]) by {
            assert(init[a] == levels[a]);
        }
    }
    let (rest, messages, done) = tick_all(streams, init);
    let finished = tick_all(streams, levels).2;
    lemma_done_are_draining(streams, init);
    assert(levels.take(n) =~= init);
    lemma_untouched(streams, levels, n);
    if i < n {
        assert(init[i] == levels[i]);
        tick_reaches_each_stream(streams, init, i);
        assert(levels[i].channel != last.channel);
        assert(finished.contains(levels[i].channel) <==> done.contains(levels[i].channel)) by {
            lemma_pushed(done, last.channel, levels[i].channel);
        }
    } else {
        assert(!done.contains(last.channel)) by {
            if done.contains(last.channel) {
                let k = done.index_of(last.channel);
                let j = choose|j: int|
                    0 <= j < init.len() && (#[trigger] init[j]).channel == done[k];
                assert(init[j] == levels[j]);
            }
        }
        lemma_pushed(done, last.channel, last.channel);
    }
}

proof fn lemma_pushed(list: Seq<u32>, last: u32, x: u32)
    ensures
        list.push(last).contains(x) <==> list.contains(x) || x == last,
{
    let longer = list.push(last);
    assert(longer[list.len() as int] == last);
    if list.contains(x) {
        let k = list.index_of(x);
        assert(longer[k] == x);
    }
}

} // verus!
