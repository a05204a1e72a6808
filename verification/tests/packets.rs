use mmserver::audio::decode::{decode_packet, is_decodable, BufferLen};
use mmserver::audio::playback::{SampleFormat, SampleSpec, StreamState};
use mmserver::audio::pulse::{
    Command, Output, PacketError, PulseClient, PulseError, PulseState, Received, Reply,
};
use pulseaudio::protocol as pulse;

fn state() -> PulseState {
    PulseState {
        cards: 0,
        next_playback_channel_index: 0,
    }
}

fn number(n: u32) -> Vec<u8> {
    let mut bytes = vec![b'L'];
    bytes.extend_from_slice(&n.to_be_bytes());
    bytes
}

fn raw(tag: u32, seq: u32, rest: &[u8]) -> Vec<u8> {
    let mut bytes = number(tag);
    bytes.extend(number(seq));
    bytes.extend_from_slice(rest);
    bytes
}

fn packet(command: pulse::Command, seq: u32, version: u16) -> Vec<u8> {
    let mut bytes = Vec::new();
    command
        .write_tag_prefixed(seq, &mut bytes, version)
        .unwrap();
    bytes
}

fn stream_params(format: pulse::SampleFormat) -> pulse::PlaybackStreamParams {
    let mut params = pulse::PlaybackStreamParams::default();
    params.sample_spec = pulse::SampleSpec {
        format,
        channels: 2,
        sample_rate: 48000,
    };
    params.channel_map = pulse::ChannelMap::stereo();
    params.buffer_attr.max_length = 1_000_000;
    params.buffer_attr.target_length = u32::MAX;
    params.buffer_attr.pre_buffering = u32::MAX;
    params.buffer_attr.minimum_request_length = u32::MAX;
    params.flags.start_corked = true;
    params
}

fn latency_request(usecs: u32) -> Vec<u8> {
    let mut rest = number(0);
    rest.push(b'T');
    rest.extend_from_slice(&7u32.to_be_bytes());
    rest.extend_from_slice(&usecs.to_be_bytes());
    raw(14, 3, &rest)
}

#[test]
fn packets_without_parameters_are_answered() {
    let mut client = PulseClient::new(1024);
    let mut state = state();
    let mut index = number(u32::MAX);
    index.push(b'N');
    let mut update = number(0);
    update.extend(number(0));
    update.extend_from_slice(b"PN");
    let reply = |reply| Output::Reply {
        seq: 7,
        version: 35,
        reply,
    };
    let error = |error| Output::Error { seq: 7, error };
    let nothing: Vec<u8> = vec![];
    let names = b"PN".to_vec();
    let mask = number(0x2ff);
    let cases: Vec<(u32, &Vec<u8>, Output)> = vec![
        (9, &names, reply(Reply::ClientName { client_id: 1024 })),
        (20, &nothing, reply(Reply::ServerInfo)),
        (21, &index, reply(Reply::SinkInfo)),
        (22, &nothing, reply(Reply::SinkInfoList)),
        (23, &index, error(PulseError::NoEntity)),
        (24, &nothing, reply(Reply::EmptySourceInfoList)),
        (28, &nothing, reply(Reply::EmptyClientInfoList)),
        (30, &nothing, reply(Reply::EmptySinkInputInfoList)),
        (32, &nothing, reply(Reply::EmptySourceOutputInfoList)),
        (35, &mask, Output::Ack { seq: 7 }),
        (81, &update, Output::Ack { seq: 7 }),
        (87, &index, error(PulseError::NoExtension)),
        (89, &nothing, reply(Reply::CardInfoList)),
        (13, &nothing, error(PulseError::NotImplemented)),
        (101, &nothing, error(PulseError::NotImplemented)),
        (104, &nothing, error(PulseError::NotImplemented)),
    ];
    for (tag, rest, output) in cases {
        assert_eq!(
            client.recv_packet(&mut state, &raw(tag, 7, rest), &vec![]),
            Ok(vec![output]),
            "command {}",
            tag
        );
    }
    assert_eq!(
        client.recv_packet(&mut state, &raw(27, 8, &number(1024)), &vec![]),
        Ok(vec![Output::Reply {
            seq: 8,
            version: 35,
            reply: Reply::ClientInfo { index: 1024 }
        }])
    );
}

#[test]
fn broken_packets_are_told_apart() {
    let mut client = PulseClient::new(1024);
    let mut state = state();
    for payload in [
        vec![],
        vec![1, 2, 3],
        raw(53, 1, b""),
        raw(200, 1, b""),
        raw(9, 1, b""),
        raw(27, 1, b"L\0"),
    ] {
        assert_eq!(
            client.recv_packet(&mut state, &payload, &vec![]),
            Err(PacketError::Malformed)
        );
    }
    let mut index = number(u32::MAX);
    index.push(b'N');
    assert_eq!(
        client.recv_packet(&mut state, &raw(88, 1, &index), &vec![]),
        Err(PacketError::Impossible)
    );
    state.cards = 1;
    assert_eq!(
        client.recv_packet(&mut state, &raw(88, 1, &index), &vec![]),
        Ok(vec![Output::Reply {
            seq: 1,
            version: 35,
            reply: Reply::CardInfo
        }])
    );
    let silent = stream_params(pulse::SampleFormat::Invalid);
    let payload = packet(pulse::Command::CreatePlaybackStream(silent), 4, 35);
    assert_eq!(
        client.recv_packet(&mut state, &payload, &vec![]),
        Err(PacketError::Impossible)
    );
    assert_eq!(state.next_playback_channel_index, 0);
}

#[test]
fn packets_are_decoded_in_the_version_of_the_client() {
    let mut client = PulseClient::new(1024);
    let mut state = state();
    let auth = pulse::Command::Auth(pulse::AuthParams {
        version: 13,
        supports_shm: true,
        supports_memfd: false,
        cookie: vec![1; 256],
    });
    assert_eq!(
        client.recv_packet(&mut state, &packet(auth, 1, 13), &vec![]),
        Ok(vec![Output::Reply {
            seq: 1,
            version: 13,
            reply: Reply::Auth { version: 35 }
        }])
    );
    assert_eq!(client.protocol_version, 13);
    let payload = packet(
        pulse::Command::CreatePlaybackStream(stream_params(pulse::SampleFormat::S16Le)),
        2,
        13,
    );
    assert!(client.recv_packet(&mut state, &payload, &vec![]).is_ok());
    let mut newer = PulseClient::new(1025);
    assert_eq!(
        newer.recv_packet(&mut state, &payload, &vec![]),
        Err(PacketError::Malformed)
    );
}

#[test]
fn streams_are_created_and_played_by_packets() {
    let mut client = PulseClient::new(1024);
    let mut state = state();
    let mut params = stream_params(pulse::SampleFormat::Invalid);
    let mut nonsense = pulse::FormatInfo::default();
    nonsense
        .props
        .set(pulse::Prop::FormatRate, c"48000");
    let mut float = pulse::FormatInfo::default();
    float.props.set(
        pulse::Prop::FormatSampleFormat,
        c"\"float32le\"",
    );
    float
        .props
        .set(pulse::Prop::FormatRate, c"48000");
    float
        .props
        .set(pulse::Prop::FormatChannels, c"2");
    params.formats = vec![nonsense, float];
    let payload = packet(pulse::Command::CreatePlaybackStream(params), 2, 35);
    match client.recv_packet(&mut state, &payload, &vec![]) {
        Ok(outputs) => match outputs[..] {
            [Output::Reply {
                seq: 2,
                version: 35,
                reply:
                    Reply::PlaybackStream {
                        channel: 0,
                        sample_spec,
                        buffer_attr,
                        requested_bytes: 7680,
                        ..
                    },
            }] => {
                assert_eq!(
                    sample_spec,
                    SampleSpec {
                        format: SampleFormat::Float32Le,
                        channels: 2,
                        sample_rate: 48000
                    }
                );
                assert_eq!(buffer_attr.max_length, 76_800);
            }
            _ => panic!("unexpected outputs: {:?}", outputs),
        },
        Err(err) => panic!("{:?}", err),
    }
    assert_eq!(client.playback_streams[&0].state, StreamState::Corked);

    let cork = |cork| pulse::Command::CorkPlaybackStream(pulse::CorkStreamParams { channel: 0, cork });
    let lens = vec![
        BufferLen { channel: 1, len: 1 },
        BufferLen {
            channel: 0,
            len: 9000,
        },
    ];
    match decode_packet(&packet(cork(true), 3, 35), 35, &lens) {
        Received::Command {
            seq: 3,
            command:
                Command::CorkPlaybackStream {
                    channel: 0,
                    cork: true,
                    buffer_len: 9000,
                },
        } => (),
        _ => panic!("expected a cork"),
    }
    assert_eq!(
        client.recv_packet(&mut state, &packet(cork(false), 3, 35), &lens),
        Ok(vec![Output::Ack { seq: 3 }])
    );
    assert_eq!(client.playback_streams[&0].state, StreamState::Playing);

    let latency = client.recv_packet(&mut state, &latency_request(999_999), &lens);
    match latency.as_deref() {
        Ok([Output::Reply {
            seq: 3,
            reply: Reply::PlaybackLatency { playing: true, .. },
            ..
        }]) => (),
        other => panic!("unexpected outputs: {:?}", other),
    }
    assert_eq!(
        client.recv_packet(&mut state, &raw(42, 9, &number(0)), &lens),
        Ok(vec![Output::ClearBuffer { channel: 0 }, Output::Ack { seq: 9 }])
    );
    assert_eq!(
        client.recv_packet(&mut state, &raw(12, 10, &number(0)), &lens),
        Ok(vec![])
    );
    assert_eq!(client.playback_streams[&0].state, StreamState::Draining(10));
}

#[test]
fn times_that_cannot_be_held_are_found() {
    let mut client = PulseClient::new(1024);
    let mut state = state();
    assert!(is_decodable(&latency_request(4_294_967)));
    assert!(!is_decodable(&latency_request(4_294_968)));
    assert!(is_decodable(&raw(20, 1, b"")));
    assert_eq!(
        client.recv_packet(&mut state, &latency_request(u32::MAX), &vec![]),
        Err(PacketError::Impossible)
    );
    assert_eq!(
        client.recv_packet(&mut state, &latency_request(4_294_967), &vec![]),
        Ok(vec![])
    );
}
