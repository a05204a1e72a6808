use bytes::Bytes;
use mmserver::audio::playback::{
    configure_buffer, samples_per_tick, BufferAttr, BufferLevel, PlaybackStream, SampleFormat, SampleSpec,
    StreamMessage, StreamState, WriteError,
};
use mmserver::audio::pulse::{
    next_packet, sample_spec_from_format, sanitize_prop_str, BrokenProtocol, Command, Descriptor,
    FormatError, FormatProps, Framing, Output, PulseClient, PulseError, PulseServer, PulseState,
    Received, Reply,
};
use mmserver::codec::{VideoCodec, VideoProfile};
use mmserver::control::VideoStreamParams;
use mmserver::encoder::h264::{
    plan_stream, qp_limit, sequence_parameters, supported_layers, H264Capabilities, H264Encoder,
    LEVEL_IDC,
};
use mmserver::encoder::rate_control::{
    baseline_for, layer_qp, select_rc_mode, CascadingQp, LayeredVbr, RateControlMode, VbrSettings,
};
use mmserver::encoder::session::{
    bind_session_memory, component_bit_depth, default_structure, encoded_range, encoder_for,
    finish_frame, output_buffer_size, plan_session, submit_encode, DpbPicture, DpbUpdate,
    EncodeCommand, EncodeInput, EncoderError, EncoderKind, GopFrame, GopStructure, MemoryRequirement, OutputFrame,
    QueryResults, VideoCapabilities,
};
use mmserver::encoder::stats::EncodeStats;

fn spec() -> SampleSpec {
    SampleSpec {
        format: SampleFormat::S16Le,
        channels: 2,
        sample_rate: 48000,
    }
}

fn default_attr() -> BufferAttr {
    BufferAttr {
        max_length: u32::MAX,
        target_length: u32::MAX,
        pre_buffering: u32::MAX,
        minimum_request_length: u32::MAX,
        fragment_size: u32::MAX,
    }
}

fn attr() -> BufferAttr {
    let mut attr = default_attr();
    configure_buffer(&mut attr, &spec());
    attr
}

fn prop(text: &str) -> Option<Vec<u8>> {
    let mut bytes = text.as_bytes().to_vec();
    bytes.push(0);
    Some(bytes)
}

fn format(format: &str, rate: &str, channels: &str) -> FormatProps {
    FormatProps {
        format: prop(format),
        rate: prop(rate),
        channels: prop(channels),
    }
}

fn state() -> PulseState {
    PulseState {
        cards: 0,
        next_playback_channel_index: 0,
    }
}

fn client_with_stream() -> (PulseClient, PulseState) {
    let mut client = PulseClient::new(1024);
    let mut state = state();
    let outputs = client.handle_command(
        &mut state,
        1,
        Command::CreatePlaybackStream {
            sample_spec: spec(),
            formats: vec![],
            buffer_attr: default_attr(),
            start_corked: false,
        },
    );
    match &outputs[..] {
        [Output::Reply {
            seq: 1,
            version: 35,
            reply:
                Reply::PlaybackStream {
                    channel: 0,
                    stream_index: 500,
                    requested_bytes: 3840,
                    ..
                },
        }] => (),
        _ => panic!("unexpected outputs: {:?}", outputs),
    }
    assert_eq!(state.next_playback_channel_index, 1);
    (client, state)
}

#[test]
fn buffers_are_configured() {
    let chosen = attr();
    assert_eq!(chosen.max_length, 38400);
    assert_eq!(chosen.minimum_request_length, 960);
    assert_eq!(chosen.target_length, 3840);
    assert_eq!(chosen.pre_buffering, 3840);

    let mut wanted = BufferAttr {
        max_length: 1_000_000,
        target_length: 10_001,
        pre_buffering: 1,
        minimum_request_length: 2_001,
        fragment_size: 7,
    };
    configure_buffer(&mut wanted, &spec());
    assert_eq!(wanted.max_length, 38_400);
    assert_eq!(wanted.minimum_request_length, 2_004);
    assert_eq!(wanted.target_length, 10_020);
    assert_eq!(wanted.pre_buffering, 2_004);
    assert_eq!(wanted.fragment_size, 7);
    let mut long = default_attr();
    long.max_length = 1_000_000;
    let float = SampleSpec {
        format: SampleFormat::Float32Le,
        ..spec()
    };
    configure_buffer(&mut long, &float);
    assert_eq!(long.max_length, 76_800);
    let mut short = default_attr();
    short.max_length = 10_001;
    configure_buffer(&mut short, &float);
    assert_eq!(short.max_length, 10_008);
    assert_eq!(SampleFormat::S24Le.bytes_per_sample(), 3);
    assert_eq!(SampleFormat::Float32Be.bytes_per_sample(), 4);
}

#[test]
fn streams_are_buffered_and_played() {
    let mut stream = PlaybackStream::new(attr(), false);
    assert_eq!(stream.state, StreamState::Prebuffering(3840));
    assert_eq!(stream.write(5, 0, 1000), (1000, vec![]));
    assert_eq!(
        stream.write(5, 1000, 2840),
        (2840, vec![StreamMessage::Started { channel: 5 }])
    );
    assert_eq!(stream.state, StreamState::Playing);

    let level = |before, after| BufferLevel {
        channel: 5,
        before,
        after,
    };
    let (done, messages) = stream.tick(level(3840, Some(1920)));
    assert!(!done);
    assert_eq!(
        messages,
        vec![StreamMessage::Request {
            channel: 5,
            length: 1920
        }]
    );
    assert_eq!(stream.played_bytes, 1920);
    let (_, messages) = stream.tick(level(1920, Some(0)));
    assert_eq!(
        messages,
        vec![StreamMessage::Request {
            channel: 5,
            length: 1920
        }]
    );
    let (_, messages) = stream.tick(level(0, None));
    assert_eq!(messages, vec![StreamMessage::Underflow { channel: 5 }]);
    assert_eq!(stream.state, StreamState::Prebuffering(3840));

    assert_eq!(
        stream.write(5, 38000, 1000),
        (400, vec![StreamMessage::Overflow { length: 600 }])
    );
}

#[test]
fn streams_are_corked() {
    let mut stream = PlaybackStream::new(attr(), true);
    assert_eq!(stream.state, StreamState::Corked);
    assert_eq!(
        stream.cork(2, false, 840),
        Some(StreamMessage::Request {
            channel: 2,
            length: 3000
        })
    );
    assert_eq!(stream.state, StreamState::Prebuffering(3000));
    stream.state = StreamState::Playing;
    assert_eq!(stream.cork(2, true, 0), None);
    assert_eq!(stream.state, StreamState::Corked);
    assert_eq!(stream.cork(2, false, 4000), None);
    assert_eq!(stream.state, StreamState::Playing);
    stream.write_offset = 77;
    stream.flush();
    assert_eq!((stream.read_offset, stream.requested_bytes), (77, 0));
}

#[test]
fn packets_are_framed() {
    let mut incoming: Vec<u8> = vec![];
    assert!(matches!(
        next_packet(&mut incoming),
        Framing::Incomplete { read_size: 8192 }
    ));
    incoming.extend_from_slice(&3u32.to_be_bytes());
    incoming.extend_from_slice(&7u32.to_be_bytes());
    incoming.extend_from_slice(&9u64.to_be_bytes());
    incoming.extend_from_slice(&0u32.to_be_bytes());
    incoming.push(1);
    assert!(matches!(
        next_packet(&mut incoming),
        Framing::Incomplete { read_size: 2 }
    ));
    incoming.extend_from_slice(&[2, 3, 4]);
    match next_packet(&mut incoming) {
        Framing::Packet {
            descriptor,
            payload,
        } => {
            assert_eq!(descriptor.length, 3);
            assert_eq!(descriptor.channel, 7);
            assert_eq!(descriptor.offset, 9);
            assert_eq!(payload, vec![1, 2, 3]);
        }
        _ => panic!("expected a packet"),
    }
    assert_eq!(incoming, vec![4]);
}

#[test]
fn packets_agree_with_pulseaudio() {
    let mut bytes = vec![];
    pulseaudio::protocol::write_descriptor(
        &mut bytes,
        &pulseaudio::protocol::Descriptor {
            length: 0,
            channel: u32::MAX,
            offset: 0x0102_0304_0506_0708,
            flags: pulseaudio::protocol::DescriptorFlags::empty(),
        },
    )
    .unwrap();
    match next_packet(&mut bytes) {
        Framing::Packet { descriptor, .. } => {
            assert_eq!(descriptor.channel, u32::MAX);
            assert_eq!(descriptor.offset, 0x0102_0304_0506_0708);
        }
        _ => panic!("expected a packet"),
    }
    assert_eq!(pulseaudio::protocol::MAX_VERSION, 35);
}

#[test]
fn formats_are_read() {
    match sample_spec_from_format(&format("\"s16le\"", "44100", "2")) {
        Ok(spec) => {
            assert_eq!(spec.format, SampleFormat::S16Le);
            assert_eq!(spec.sample_rate, 44100);
            assert_eq!(spec.channels, 2);
        }
        Err(_) => panic!("expected a format"),
    }
    let err = |props: FormatProps| sample_spec_from_format(&props).err();
    assert_eq!(
        err(format("\"s17le\"", "44100", "2")),
        Some(FormatError::UnsupportedFormat)
    );
    assert_eq!(
        err(format("\"s16le\"", "fast", "2")),
        Some(FormatError::InvalidRate)
    );
    assert_eq!(
        err(format("\"s16le\"", "44100", "256")),
        Some(FormatError::InvalidChannels)
    );
    assert_eq!(
        err(FormatProps {
            format: None,
            rate: prop("1"),
            channels: prop("1")
        }),
        Some(FormatError::MissingFormat)
    );
    assert_eq!(
        sanitize_prop_str(&b"x".to_vec()).err(),
        Some(FormatError::InvalidString)
    );
    assert_eq!(
        sanitize_prop_str(&vec![0xff, 0]).err(),
        Some(FormatError::InvalidUtf8)
    );
}

#[test]
fn commands_are_answered() {
    let mut client = PulseClient::new(1024);
    let mut state = state();
    assert_eq!(
        client.handle_command(&mut state, 9, Command::Auth { version: 32 }),
        vec![Output::Reply {
            seq: 9,
            version: 32,
            reply: Reply::Auth { version: 35 }
        }]
    );
    assert_eq!(
        client.handle_command(&mut state, 10, Command::SetClientName),
        vec![Output::Reply {
            seq: 10,
            version: 32,
            reply: Reply::ClientName { client_id: 1024 }
        }]
    );
    assert_eq!(
        client.handle_command(&mut state, 11, Command::Subscribe),
        vec![Output::Ack { seq: 11 }]
    );
    assert_eq!(
        client.handle_command(&mut state, 12, Command::Extension),
        vec![Output::Error {
            seq: 12,
            error: PulseError::NoExtension
        }]
    );
    assert_eq!(
        client.handle_command(&mut state, 13, Command::Other),
        vec![Output::Error {
            seq: 13,
            error: PulseError::NotImplemented
        }]
    );
}

#[test]
fn control_packets_are_handled() {
    let mut client = PulseClient::new(1024);
    let mut state = state();
    let descriptor = |channel| Descriptor {
        length: 0,
        channel,
        offset: 0,
    };
    assert!(descriptor(u32::MAX).is_command());
    assert!(!descriptor(0).is_command());
    let subscribe = Received::Command {
        seq: 4,
        command: Command::Subscribe,
    };
    assert_eq!(
        client.recv(&mut state, subscribe),
        Ok(vec![Output::Ack { seq: 4 }])
    );
    assert_eq!(
        client.recv(&mut state, Received::Unimplemented { seq: 5 }),
        Ok(vec![Output::Error {
            seq: 5,
            error: PulseError::NotImplemented
        }])
    );
    assert_eq!(
        client.recv(&mut state, Received::Malformed),
        Err(BrokenProtocol)
    );
    assert_eq!(samples_per_tick(), 960);
}

#[test]
fn streams_are_drained() {
    let (mut client, mut state) = client_with_stream();
    assert_eq!(
        client.handle_stream_write(9, 0, 10, 0).err(),
        Some(WriteError::InvalidChannel)
    );
    assert_eq!(
        client.handle_stream_write(0, 4, 10, 0).err(),
        Some(WriteError::SeekNotSupported)
    );
    match client.handle_stream_write(0, 0, 3840, 0) {
        Ok((3840, messages)) => {
            assert_eq!(messages, vec![StreamMessage::Started { channel: 0 }])
        }
        _ => panic!("expected a write"),
    }
    assert!(client
        .handle_command(
            &mut state,
            33,
            Command::DrainPlaybackStream { channel: 0 }
        )
        .is_empty());
    assert_eq!(
        client.clock_tick(&vec![BufferLevel {
            channel: 0,
            before: 1920,
            after: Some(0)
        }]),
        vec![StreamMessage::Ack { seq: 33 }]
    );
    assert!(client.playback_streams.is_empty());
}

#[test]
fn streams_are_flushed() {
    let (mut client, mut state) = client_with_stream();
    assert_eq!(
        client.handle_command(
            &mut state,
            5,
            Command::FlushPlaybackStream { channel: 0 }
        ),
        vec![Output::ClearBuffer { channel: 0 }, Output::Ack { seq: 5 }]
    );
    assert_eq!(
        client.handle_command(
            &mut state,
            6,
            Command::FlushPlaybackStream { channel: 3 }
        ),
        vec![Output::Ack { seq: 6 }]
    );
}

#[test]
fn audio_clients_have_tokens() {
    let mut server = PulseServer::new();
    let first = server.accept();
    let second = server.accept();
    assert_eq!((first, second), (1024, 1025));
    assert!(server.remove(first));
    assert!(!server.remove(first));
    assert_eq!(server.accept(), 1026);
}

fn video(preset: u32, profile: VideoProfile) -> VideoStreamParams {
    VideoStreamParams {
        width: 1920,
        height: 1080,
        codec: VideoCodec::H264,
        preset,
        profile,
    }
}

fn frame(id: u32, is_keyframe: bool) -> GopFrame {
    GopFrame {
        stream_position: if is_keyframe { 0 } else { 1 },
        gop_position: if is_keyframe { 0 } else { 1 },
        id,
        ref_ids: if is_keyframe { vec![] } else { vec![0] },
        is_keyframe,
        forward_ref_count: 1,
    }
}

#[test]
fn quality_of_layers() {
    assert_eq!(layer_qp(20, 0), 20);
    assert_eq!(layer_qp(20, 1), 25);
    assert_eq!(layer_qp(20, 3), 29);
    let qp = CascadingQp {
        target: 20,
        max: 27,
    };
    assert_eq!(qp.layer(1), 25);
    assert_eq!(qp.layer(2), 27);
    assert_eq!(qp.layer(3), 27);
    let vbr = LayeredVbr {
        vbv_size_ms: 2500,
        base: VbrSettings {
            average_bitrate: 8_000,
            peak_bitrate: 16_000,
            max_qp: 30,
            min_qp: 17,
        },
        num_layers: 2,
    };
    assert_eq!(vbr.layer(0).average_bitrate, 4_000);
    assert_eq!(vbr.layer(1).average_bitrate, 2_000);
    let single = LayeredVbr {
        num_layers: 1,
        ..vbr
    };
    assert_eq!(single.layer(0), vbr.base);
    assert_eq!(baseline_for(0), (2_500_000, 5_000_000));
    assert_eq!(baseline_for(6), (10_000_000, 40_000_000));
    assert_eq!(baseline_for(9), (50_000_000, 100_000_000));
}

#[test]
fn rate_control_is_selected() {
    let select = |preset, modes| {
        select_rc_mode(
            video(preset, VideoProfile::Hd),
            modes,
            0,
            51,
            1,
            1_000,
            2_000,
        )
    };
    assert_eq!(
        select(8, 5),
        RateControlMode::ConstantQp(CascadingQp {
            target: 24,
            max: 51
        })
    );
    match select(6, 5) {
        RateControlMode::Vbr(vbr) => {
            assert_eq!(vbr.base.min_qp, 17);
            assert_eq!(vbr.base.max_qp, 28);
            assert_eq!(vbr.base.average_bitrate, 1_000);
        }
        _ => panic!("expected a variable bitrate"),
    }
    assert!(matches!(select(6, 1), RateControlMode::ConstantQp(_)));
    assert!(matches!(select(8, 4), RateControlMode::Vbr(_)));
    assert_eq!(select(8, 0), RateControlMode::Defaults);
    assert_eq!(RateControlMode::Defaults.as_vk_flags(), 0);
    assert_eq!(select(8, 5).as_vk_flags(), 1);
    assert_eq!(select(6, 5).as_vk_flags(), 4);
}

#[test]
fn sizes_are_counted() {
    let mut stats = EncodeStats::new(0);
    stats.record_frame_size(true, 0, 100);
    stats.record_frame_size(false, 2, 10);
    stats.record_frame_size(false, 2, 30);
    assert_eq!(stats.stream_stats.total, 140);
    assert_eq!(stats.keyframe_stats.total, 100);
    assert_eq!(stats.layer_stats.len(), 3);
    assert_eq!(stats.layer_stats[2].min, 10);
    assert_eq!(stats.layer_stats[2].max, 30);
    assert_eq!(stats.layer_stats[0].total, 0);
    stats.record_frame_size(false, 2, 20);
    assert_eq!(
        (
            stats.layer_stats[2].min,
            stats.layer_stats[2].max,
            stats.layer_stats[2].total
        ),
        (10, 30, 60)
    );
    assert_eq!((stats.stream_stats.min, stats.stream_stats.max), (10, 100));
    let layers: u64 = stats.layer_stats.iter().map(|layer| layer.total).sum();
    assert_eq!(stats.keyframe_stats.total + layers, stats.stream_stats.total);
}

#[test]
fn encoders_and_structures() {
    assert!(matches!(
        encoder_for(VideoCodec::H265),
        Ok(EncoderKind::H265)
    ));
    assert!(matches!(
        encoder_for(VideoCodec::Av1),
        Err(EncoderError::UnsupportedCodec)
    ));
    let sizes = vec![1, 2, 3, 5, 9];
    match default_structure(VideoCodec::H265, 8, 5, &sizes) {
        Ok(structure) => assert_eq!((structure.layers, structure.gop_size), (3, 256)),
        Err(_) => panic!("expected a structure"),
    }
    match default_structure(VideoCodec::H264, 8, 5, &sizes) {
        Ok(structure) => assert_eq!(structure.layers, 1),
        Err(_) => panic!("expected a structure"),
    }
    assert!(matches!(
        default_structure(VideoCodec::H264, 8, 1, &sizes),
        Err(EncoderError::TooFewDpbSlots)
    ));
    assert_eq!(component_bit_depth(VideoProfile::Hd), 8);
    assert_eq!(component_bit_depth(VideoProfile::Hdr10), 10);
}

#[test]
fn encode_sessions_are_planned() {
    let caps = VideoCapabilities {
        max_coded_width: 4096,
        max_coded_height: 4096,
        granularity_width: 64,
        granularity_height: 64,
        min_bitstream_buffer_size_alignment: 4096,
        flags: 2,
    };
    match plan_session(true, 1920, 1080, caps, &vec![1000156003, 9]) {
        Ok(plan) => {
            assert_eq!(plan.input_format, 1000156003);
            assert!(plan.separate_dpb_images);
            assert_eq!((plan.dpb_width, plan.dpb_height), (1920, 1088));
            assert_eq!(plan.output_buffer_size, 6221824);
        }
        Err(_) => panic!("expected a plan"),
    }
    assert_eq!(output_buffer_size(2, 2, 16), 16);
    assert!(matches!(
        plan_session(false, 1920, 1080, caps, &vec![1]),
        Err(EncoderError::NoVideoSupport)
    ));
    assert!(matches!(
        plan_session(true, 8192, 1080, caps, &vec![1]),
        Err(EncoderError::ResolutionTooLarge { .. })
    ));
    assert!(matches!(
        plan_session(true, 1920, 1080, caps, &vec![]),
        Err(EncoderError::NoInputFormat)
    ));
}

#[test]
fn frames_are_submitted() {
    let setup = DpbPicture {
        index: 2,
        currently_active: false,
    };
    let reference = DpbPicture {
        index: 1,
        currently_active: true,
    };
    let output = OutputFrame::new();
    let input = EncodeInput {
        graphics_family: 0,
        encode_family: 1,
        acquire: 31,
        release: 32,
        has_headers: false,
    };
    let references = vec![Some(reference)];
    let plan = match submit_encode(
        true,
        input,
        Some(output),
        setup,
        &references,
        &frame(1, false),
    ) {
        Ok(plan) => plan,
        Err(_) => panic!("expected a plan"),
    };
    assert_eq!(plan.bound_slots, vec![-1, 1]);
    assert_eq!(plan.reference_slots, vec![1]);
    assert!(plan.announce_rate_control);
    assert_eq!(
        plan.commands,
        vec![
            EncodeCommand::BeginRecording,
            EncodeCommand::AcquireInput { from: 0, to: 1 },
            EncodeCommand::BeginCoding,
            EncodeCommand::BeginQuery,
            EncodeCommand::PrepareSlot {
                slot: 1,
                written: false
            },
            EncodeCommand::PrepareSlot {
                slot: 2,
                written: true
            },
            EncodeCommand::Encode,
            EncodeCommand::EndQuery,
            EncodeCommand::EndCoding,
            EncodeCommand::ReleaseInput { from: 1, to: 0 },
            EncodeCommand::WaitCopied { value: 0 },
            EncodeCommand::EndRecording,
            EncodeCommand::Submit {
                wait: 31,
                encoded: 10,
                release: 32
            },
            EncodeCommand::HandOver,
        ]
    );
    assert_eq!(
        plan.dpb_update,
        DpbUpdate::Activate {
            clear: false,
            slot: 2,
            id: 1
        }
    );
    assert_eq!((plan.frame.tp_encoded, plan.frame.tp_copied), (10, 11));
    let headed = EncodeInput {
        has_headers: true,
        ..input
    };
    match submit_encode(
        true,
        headed,
        Some(plan.frame),
        setup,
        &vec![],
        &frame(0, true),
    ) {
        Ok(plan) => {
            assert!(!plan.announce_rate_control);
            assert_eq!(plan.commands[3], EncodeCommand::Reset);
            let n = plan.commands.len();
            assert_eq!(plan.commands[n - 2], EncodeCommand::WriteHeaders);
            assert!(plan
                .commands
                .contains(&EncodeCommand::WaitCopied { value: 11 }));
        }
        Err(_) => panic!("expected a plan"),
    }
    assert!(matches!(
        submit_encode(
            true,
            input,
            Some(output),
            setup,
            &vec![None],
            &frame(1, false)
        ),
        Err(EncoderError::MissingReference(0))
    ));
    assert!(matches!(
        submit_encode(true, input, None, setup, &vec![], &frame(0, true)),
        Err(EncoderError::CopyThreadDied)
    ));
    assert!(matches!(
        submit_encode(false, input, None, setup, &vec![], &frame(0, true)),
        Err(EncoderError::SessionParametersMissing)
    ));
}

#[test]
fn frames_are_finished() {
    let results = |result| QueryResults {
        offset: 64,
        size: 1000,
        result,
    };
    assert!(matches!(encoded_range(results(1)), Ok((64, 1000))));
    assert!(matches!(
        encoded_range(results(-1)),
        Err(EncoderError::EncodeFailed { status: -1 })
    ));
    let mut stats = EncodeStats::new(0);
    let output = OutputFrame {
        hierarchical_layer: 1,
        ..OutputFrame::new()
    };
    match finish_frame(&output, results(1), &mut stats) {
        Ok(packet) => {
            assert_eq!((packet.offset, packet.len), (64, 1000));
            assert_eq!(packet.hierarchical_layer, 1);
        }
        Err(_) => panic!("expected a packet"),
    }
    assert_eq!(stats.layer_stats[1].total, 1000);
    assert!(finish_frame(&output, results(0), &mut stats).is_err());
    assert_eq!(stats.stream_stats.total, 1000);
}

#[test]
fn session_memory_is_bound() {
    let requirement = |bits| MemoryRequirement {
        bind_index: 3,
        size: 4096,
        memory_type_bits: bits,
    };
    let types = vec![2, 1, 7];
    match bind_session_memory(&types, &vec![requirement(7), requirement(1)]) {
        Ok(binds) => {
            assert_eq!(binds[0].memory_type, 1);
            assert_eq!(binds[1].memory_type, 0);
            assert_eq!(binds[0].bind_index, 3);
        }
        Err(_) => panic!("expected memory"),
    }
    assert!(matches!(
        bind_session_memory(&types, &vec![requirement(8)]),
        Err(EncoderError::NoMemoryType)
    ));
}

#[test]
fn h264_sequences() {
    let structure = GopStructure {
        layers: 1,
        gop_size: 256,
    };
    match sequence_parameters(video(6, VideoProfile::Hd), structure, 16, LEVEL_IDC) {
        Ok(sps) => {
            assert_eq!(sps.pic_width_in_mbs_minus1, 119);
            assert_eq!(sps.pic_height_in_map_units_minus1, 67);
            assert_eq!(sps.frame_crop_right_offset, 0);
            assert_eq!(sps.frame_crop_bottom_offset, 4);
            assert!(sps.frame_cropping);
            assert_eq!(sps.log2_max_frame_num_minus4, 4);
            assert_eq!(sps.colour_primaries, 1);
        }
        Err(_) => panic!("expected parameters"),
    }
    match sequence_parameters(video(6, VideoProfile::Hdr10), structure, 16, 0) {
        Ok(sps) => {
            assert_eq!(sps.bit_depth_minus8, 2);
            assert_eq!(sps.transfer_characteristics, 16);
        }
        Err(_) => panic!("expected parameters"),
    }
    assert!(matches!(
        sequence_parameters(video(6, VideoProfile::Hd), structure, 16, 1),
        Err(EncoderError::LevelTooLow)
    ));
    assert_eq!(qp_limit(-1, 51), 51);
    assert_eq!(qp_limit(40, 51), 40);
    assert_eq!(supported_layers(3, 2), 2);
}

#[test]
fn h264_streams_are_planned() {
    let caps = H264Capabilities {
        max_temporal_layers: 4,
        max_rate_control_layers: 4,
        rate_control_modes: 5,
        max_dpb_slots: 16,
        min_qp: -1,
        max_qp: -1,
        max_level_idc: 0,
        block: 16,
    };
    let sizes = vec![1, 2, 3, 5, 9];
    match plan_stream(video(9, VideoProfile::Hd), caps, &sizes, 1, 2) {
        Ok(plan) => {
            assert_eq!(plan.structure.layers, 1);
            assert_eq!(
                plan.rc_mode,
                RateControlMode::ConstantQp(CascadingQp {
                    target: 22,
                    max: 50
                })
            );
            assert_eq!(plan.sps.pic_width_in_mbs_minus1, 119);
        }
        Err(_) => panic!("expected a plan"),
    }
    let low = H264Capabilities {
        max_level_idc: 14,
        ..caps
    };
    assert!(matches!(
        plan_stream(video(9, VideoProfile::Hd), low, &sizes, 1, 2),
        Err(EncoderError::LevelTooLow)
    ));
    let small = H264Capabilities {
        max_dpb_slots: 1,
        ..low
    };
    assert!(matches!(
        plan_stream(video(9, VideoProfile::Hd), small, &sizes, 1, 2),
        Err(EncoderError::TooFewDpbSlots)
    ));
}

#[test]
fn h264_pictures() {
    let structure = GopStructure {
        layers: 1,
        gop_size: 256,
    };
    let mode = RateControlMode::ConstantQp(CascadingQp {
        target: 24,
        max: 51,
    });
    assert!(matches!(
        H264Encoder::new(mode, structure, Bytes::new()),
        Err(EncoderError::NoHeaders)
    ));
    let mut encoder = match H264Encoder::new(mode, structure, Bytes::from_static(b"sps")) {
        Ok(encoder) => encoder,
        Err(_) => panic!("expected an encoder"),
    };
    let key = frame(0, true);
    let picture = match encoder.prepare_picture(&key, &vec![], &vec![(60, 1)]) {
        Ok(picture) => picture,
        Err(_) => panic!("expected a picture"),
    };
    assert!(picture.is_idr);
    assert_eq!(picture.slice_type, 7);
    assert_eq!(picture.constant_qp, 24);
    assert_eq!(picture.insert, Some(Bytes::from_static(b"sps")));
    assert_eq!(picture.ref_list0, vec![255; 32]);
    encoder.picture_submitted(&key);
    assert_eq!(encoder.frame_num, 1);

    let next = frame(0, false);
    let picture = match encoder.prepare_picture(&next, &vec![Some(3)], &vec![(60, 1)]) {
        Ok(picture) => picture,
        Err(_) => panic!("expected a picture"),
    };
    assert!(!picture.is_idr);
    assert_eq!(picture.slice_type, 5);
    assert_eq!(picture.insert, None);
    assert_eq!(picture.ref_list0[0], 3);
    assert_eq!(picture.setup.frame_num, 1);
    assert_eq!(picture.references.len(), 1);
    assert!(matches!(
        encoder.prepare_picture(&next, &vec![None], &vec![(60, 1)]),
        Err(EncoderError::MissingReference(0))
    ));
}
