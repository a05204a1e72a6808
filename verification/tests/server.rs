use bytes::Bytes;
use mmserver::container::{gen_socket_name, socket_name};
use mmserver::net::{IpAddr, SocketAddr};
use mmserver::preflight::{
    linux_version, preflight_checks, sysctl, DriverVersion, PreflightError, Warning,
};
use mmserver::server::connection::{
    dgram_step, ClientConnection, Decoded, DgramEvent, DgramStep, LocalSocketInfo, PacketInfo,
    ReadFailure, ReadStep, SendResult, StreamAction, StreamDecision, StreamStatus, WriteStart,
};
use mmserver::server::mdns::{
    mdns_hostname, mdns_instance_name, plan_service, DaemonReply, HostnameError, Teardown,
};
use mmserver::server::packets::{txtime_nanos, Outgoing, OutgoingQueue, PacketBatch};
use mmserver::server::registry::{
    gen_random_cid, quic_limits, socket_options, tls_mode, PacketHeader, RecvDecision, RecvError, Server, TlsMode,
};
use mmserver::server::protocol::{ErrorCode, ServerError};
use mmserver::server::stream::StreamWriter;
use mmserver::server::transfer::AttachmentStats;
use mmserver::server::turn::{Outcome, Phase, ServerEnd};

fn addr(port: u16) -> SocketAddr {
    SocketAddr {
        ip: IpAddr::V4(0x7f00_0001),
        port,
    }
}

fn local(port: u16) -> LocalSocketInfo {
    LocalSocketInfo::V4 {
        interface: 1,
        spec_dst: 0,
        addr: 0x7f00_0001,
        port,
    }
}

fn client() -> ClientConnection {
    ClientConnection::new(addr(1), local(2), vec![1, 2, 3], 1024, 0)
}

fn initial(id: u8) -> Option<PacketHeader> {
    Some(PacketHeader {
        dcid: vec![id],
        is_initial: true,
        version_supported: true,
    })
}

#[test]
fn test_linux_version() {
    let uname = rustix::system::uname();
    let Some((major, _minor)) = linux_version(uname.release().to_str().unwrap()) else {
        panic!("failed to determine linux version");
    };

    assert!(major >= 6);
}

#[test]
fn releases_are_read() {
    assert_eq!(linux_version("6.8.0-45-generic"), Some((6, 8)));
    assert_eq!(linux_version("  5.15 extra"), Some((5, 15)));
    assert_eq!(linux_version("6"), None);
    assert_eq!(linux_version(""), None);
    assert_eq!(linux_version("6.x.1"), None);
    assert_eq!(linux_version("6.4294967296"), None);
}

#[test]
fn machines_are_checked() {
    let radv = |major, minor| DriverVersion::MesaRadv {
        major,
        minor,
        patch: 1,
    };
    assert!(matches!(
        preflight_checks(Some((6, 0)), &radv(24, 3), false),
        Ok(list) if list.is_empty()
    ));
    match preflight_checks(Some((5, 15)), &radv(24, 3), false) {
        Err(err) => assert_eq!(
            err.message(),
            "kernel version 5.15 is too low; 6.x required"
        ),
        Ok(_) => panic!("expected error"),
    }
    match preflight_checks(None, &radv(24, 2), false) {
        Err(err) => assert_eq!(err.message(), "mesa >= 24.3 required, have 24.2.1"),
        Ok(_) => panic!("expected error"),
    }
    let nvidia = |major| DriverVersion::NvidiaProprietary { major, minor: 77 };
    assert!(preflight_checks(Some((6, 1)), &nvidia(565), false).is_ok());
    match preflight_checks(Some((6, 1)), &nvidia(550), false) {
        Err(err) => {
            assert_eq!(err, PreflightError::NvidiaTooOld { major: 550, minor: 77 });
            assert_eq!(
                err.message(),
                "driver version >= 565.x required, have 550.77"
            );
        }
        Ok(_) => panic!("expected error"),
    }
    match preflight_checks(None, &DriverVersion::Other("lavapipe".to_string()), true) {
        Ok(list) => assert_eq!(
            list,
            vec![
                Warning::UnknownKernel,
                Warning::UnsupportedDriver,
                Warning::UserNamespacesRestricted
            ]
        ),
        Err(_) => panic!("expected warnings"),
    }
}

#[test]
fn kernel_settings() {
    assert!(sysctl(Some("1\n")));
    assert!(sysctl(Some(" 1")));
    assert!(!sysctl(Some("0\n")));
    assert!(!sysctl(Some("11")));
    assert!(!sysctl(Some("1 1")));
    assert!(!sysctl(Some("")));
    assert!(!sysctl(None));
}

#[test]
fn names_on_the_network() {
    assert_eq!(
        mdns_hostname("gaming").ok().as_deref(),
        Some("gaming.local.")
    );
    assert_eq!(
        mdns_hostname("gaming.local").ok().as_deref(),
        Some("gaming.local.")
    );
    assert_eq!(mdns_hostname("").err(), Some(HostnameError::Empty));
    assert_eq!(
        mdns_hostname("gaming.example.com").err(),
        Some(HostnameError::Qualified)
    );
    assert_eq!(
        mdns_instance_name("gaming.local.").ok().as_deref(),
        Some("GAMING")
    );
    assert_eq!(
        mdns_instance_name("größe").ok().as_deref(),
        Some("GRÖSSE")
    );
    assert_eq!(mdns_instance_name("").err(), Some(HostnameError::Empty));
}

#[test]
fn services_are_announced() {
    let plan = match plan_service(addr(9599), None, None, "gaming") {
        Ok(plan) => plan,
        Err(_) => panic!("expected a plan"),
    };
    assert_eq!(plan.hostname, "gaming.local.");
    assert_eq!(plan.instance_name, "GAMING");
    assert_eq!(plan.ip, Some(IpAddr::V4(0x7f00_0001)));
    assert!(!plan.addr_auto);
    assert_eq!(plan.port, 9599);

    let any = SocketAddr {
        ip: IpAddr::V6(0),
        port: 1,
    };
    let plan = match plan_service(any, Some("x.local."), Some("Den"), "") {
        Ok(plan) => plan,
        Err(_) => panic!("expected a plan"),
    };
    assert_eq!(plan.hostname, "x.local.");
    assert_eq!(plan.instance_name, "Den");
    assert_eq!(plan.ip, None);
    assert!(plan.addr_auto);
    assert!(plan_service(any, None, None, "").is_err());
}

#[test]
fn services_are_taken_back() {
    let state = Teardown::Unregister;
    assert_eq!(state.next(DaemonReply::Again), Teardown::Unregister);
    let state = state.next(DaemonReply::Accepted);
    assert_eq!(state, Teardown::Shutdown);
    assert_eq!(state.next(DaemonReply::Again), Teardown::Shutdown);
    assert_eq!(state.next(DaemonReply::Accepted), Teardown::Finished);
    assert_eq!(
        Teardown::Unregister.next(DaemonReply::Failed),
        Teardown::Finished
    );
}

#[test]
fn messages_arrive_in_parts() {
    let mut client = client();
    let mut buffer = client.begin_read(4, vec![1, 2, 3, 4, 5]);
    assert_eq!(
        client.read_step(4, &mut buffer, Decoded::Message { len: 2 }),
        ReadStep::Keep
    );
    assert_eq!(buffer.remaining(), vec![3, 4, 5]);
    assert_eq!(
        client.read_step(4, &mut buffer, Decoded::UnknownType { len: 1 }),
        ReadStep::Skip
    );
    assert_eq!(
        client.read_step(4, &mut buffer, Decoded::ShortBuffer),
        ReadStep::Wait
    );
    let mut buffer = client.begin_read(4, vec![6]);
    assert_eq!(buffer.remaining(), vec![4, 5, 6]);
    assert!(!buffer.is_empty());
    assert_eq!(
        client.read_step(4, &mut buffer, Decoded::Invalid),
        ReadStep::Fail
    );
}

#[test]
fn messages_are_written_in_parts() {
    let mut client = client();
    let data = Bytes::from_static(b"hello");
    assert_eq!(
        client.message_written(8, data.clone(), SendResult::Written(5)),
        Ok(true)
    );
    assert_eq!(client.pending_write(8), None);
    assert_eq!(
        client.message_written(8, data.clone(), SendResult::Written(2)),
        Ok(false)
    );
    assert_eq!(client.pending_write(8), Some(Bytes::from_static(b"llo")));
    assert_eq!(client.partial_flushed(8, SendResult::Blocked), Ok(false));
    assert_eq!(client.partial_flushed(8, SendResult::Written(1)), Ok(false));
    assert_eq!(client.pending_write(8), Some(Bytes::from_static(b"lo")));
    assert_eq!(client.partial_flushed(8, SendResult::Written(2)), Ok(true));
    assert_eq!(client.pending_write(8), None);
    assert!(client
        .message_written(8, data, SendResult::Failed)
        .is_err());
}

#[test]
fn streams_come_and_go() {
    let mut client = client();
    assert_eq!(
        client.stream_read(4, false, false, Some(1200)),
        StreamDecision::Skip
    );
    assert_eq!(
        client.stream_read(4, true, false, None),
        StreamDecision::NoDatagrams
    );
    assert_eq!(
        client.stream_read(4, true, false, Some(1200)),
        StreamDecision::Spawn {
            max_dgram_len: 1200
        }
    );
    assert_eq!(
        client.stream_read(4, true, true, Some(1200)),
        StreamDecision::Forward
    );
    let status = |worker_done| StreamStatus {
        sid: 4,
        peer_finished: true,
        worker_done,
        outgoing_empty: true,
    };
    assert!(client.reap_streams(&vec![status(false)]).is_empty());
    assert_eq!(
        client.message_written(4, Bytes::from_static(b"x"), SendResult::Blocked),
        Ok(false)
    );
    assert!(client.reap_streams(&vec![status(true)]).is_empty());
    assert_eq!(client.partial_flushed(4, SendResult::Written(1)), Ok(true));
    assert_eq!(client.reap_streams(&vec![status(true)]), vec![4]);
    assert!(client.in_flight.is_empty());
}

#[test]
fn clients_are_pinged() {
    let mut client = client();
    assert!(!client.keepalive_due(5_000_000_000));
    client.stream_read(4, true, false, Some(1200));
    assert!(!client.keepalive_due(999_999_999));
    assert!(client.keepalive_due(1_000_000_000));
    assert!(!client.keepalive_due(1_500_000_000));
    match &client.err_stream(4, ReadFailure::Other.into_error())[..] {
        [StreamAction::Write {
            sid: 4,
            message,
            fin: true,
        }, StreamAction::ShutdownRead {
            sid: 4,
            code: Some(ErrorCode::ErrorServer),
        }] => {
            assert_eq!(message.err_code, ErrorCode::ErrorServer);
            assert_eq!(message.error_text, "Internal server error");
        }
        _ => panic!("expected a message and the end"),
    }
    assert!(!client.keepalive_due(9_000_000_000));
}

#[test]
fn random_names_and_ids() {
    let ids = [gen_random_cid().unwrap(), gen_random_cid().unwrap()];
    assert_eq!(ids[0].len(), 20);
    assert_ne!(ids[0], ids[1]);
    let names = [gen_socket_name(), gen_socket_name()];
    assert!(names[0].starts_with("magic-mirror-"));
    assert_ne!(names[0], names[1]);
    let number: u64 = names[0]["magic-mirror-".len()..].parse().unwrap();
    assert_eq!(socket_name(number), names[0]);
}

#[test]
fn transfers_are_reported() {
    let mut stats = AttachmentStats::new(1_000);
    assert_eq!(stats.record_frame(100, 5_999_999_999), None);
    assert_eq!(stats.record_frame(20, 6_000_000_999), None);
    let report = stats.record_frame(3, 6_000_001_000).unwrap();
    assert_eq!(report.duration, 6_000_000_000);
    assert_eq!(report.total_transfer, 123);
    assert_eq!(stats.record_frame(1, 7_000_000_000), None);
}

#[test]
fn broken_streams_are_explained() {
    let mut client = client();
    let failure = ReadFailure::Protocol("short".to_string());
    match &client.err_stream(4, failure.into_error())[..] {
        [StreamAction::Write {
            sid: 4,
            message,
            fin: true,
        }, StreamAction::ShutdownRead {
            sid: 4,
            code: Some(ErrorCode::ErrorProtocol),
        }] => assert_eq!(message.error_text, "short"),
        _ => panic!("expected a message and the end"),
    }
    match &client.err_stream(8, ServerError(ErrorCode::ErrorServer, None))[..] {
        [StreamAction::Write { message, .. }, _] => assert_eq!(message.error_text, ""),
        _ => panic!("expected a message and the end"),
    }
    assert!(matches!(
        ClientConnection::close_stream(8)[..],
        [
            StreamAction::Finish { sid: 8 },
            StreamAction::ShutdownRead { sid: 8, code: None }
        ]
    ));
}

#[test]
fn streams_are_written_in_order() {
    let mut client = client();
    assert!(matches!(client.begin_write(4), WriteStart::Skip));
    client.stream_read(4, true, false, Some(1200));
    assert!(matches!(client.begin_write(4), WriteStart::Ready));
    let hello = Bytes::from_static(b"hello");
    assert_eq!(
        client.message_written(4, hello, SendResult::Written(2)),
        Ok(false)
    );
    match client.begin_write(4) {
        WriteStart::Flush(rest) => assert_eq!(rest, Bytes::from_static(b"llo")),
        _ => panic!("expected the rest of the message"),
    }
    assert_eq!(dgram_step(DgramEvent::Sent), DgramStep::Next);
    assert_eq!(dgram_step(DgramEvent::QueueFull), DgramStep::Stop);
    assert_eq!(dgram_step(DgramEvent::NothingToSend), DgramStep::Stop);
    assert_eq!(
        dgram_step(DgramEvent::Failed),
        DgramStep::Close(ErrorCode::ErrorProtocol)
    );
}

#[test]
fn local_addresses_are_found() {
    let v4 = PacketInfo::V4 {
        interface: 1,
        spec_dst: 0,
        addr: 0x7f00_0001,
    };
    let v6 = PacketInfo::V6 {
        addr: 1,
        interface: 2,
    };
    assert_eq!(LocalSocketInfo::find(&vec![PacketInfo::Other], 9), None);
    assert_eq!(
        LocalSocketInfo::find(&vec![v6, v4, PacketInfo::Other], 9),
        Some(local(9))
    );
    assert_eq!(
        LocalSocketInfo::find(&vec![v4, v6], 9),
        Some(LocalSocketInfo::V6 {
            addr: 1,
            interface: 2,
            port: 9
        })
    );
    let options = |ip| {
        let options = socket_options(SocketAddr { ip, port: 1 });
        (options.ipv4_packet_info, options.ipv6_packet_info)
    };
    assert_eq!(options(IpAddr::V4(0)), (true, false));
    assert_eq!(options(IpAddr::V6(0)), (true, true));
    assert_eq!(options(IpAddr::V6(1)), (false, false));
}

#[test]
fn packets_find_their_clients() {
    let mut server = Server::new(Some(1));
    assert!(matches!(
        server.recv(None, Some(local(2))),
        Err(RecvError::InvalidPacket)
    ));
    assert!(matches!(
        server.recv(initial(1), None),
        Err(RecvError::NoLocalAddress)
    ));
    assert_eq!(
        server.recv(initial(1), Some(local(2))),
        Ok(RecvDecision::Accept { local: local(2) })
    );
    assert_eq!(
        server.recv(
            Some(PacketHeader {
                dcid: vec![1],
                is_initial: true,
                version_supported: false
            }),
            Some(local(2))
        ),
        Ok(RecvDecision::NegotiateVersion { local: local(2) })
    );

    let token = server.add_client(vec![1], addr(1), local(2), 0);
    assert_eq!(token, 1024);
    assert_eq!(server.client_for_token(token), Some(vec![1]));
    assert_eq!(server.client_for_token(7), None);
    assert_eq!(
        server.recv(initial(1), None),
        Ok(RecvDecision::Deliver { local: local(2) })
    );
    assert_eq!(
        server.recv(initial(2), Some(local(2))),
        Ok(RecvDecision::Ignore)
    );
    server.queue_packet(Bytes::from_static(b"retry"), addr(9), local(2));
    match server.outgoing_packets.next() {
        Some(packet) => {
            assert_eq!(packet.buf, Bytes::from_static(b"retry"));
            assert_eq!(packet.to, addr(9));
            assert_eq!(packet.from.socket_addr(), addr(2));
        }
        None => panic!("expected a packet"),
    }
    let client = server.client_mut(&vec![1]).unwrap();
    let mut buffer = client.begin_read(4, vec![1, 2]);
    assert_eq!(
        client.read_step(4, &mut buffer, Decoded::ShortBuffer),
        ReadStep::Wait
    );
    assert_eq!(client.partial_reads.len(), 1);
    client.forget_finished(&vec![3]);
    assert_eq!(client.partial_reads.len(), 1);
    client.forget_finished(&vec![3, 4]);
    assert!(client.partial_reads.is_empty());
    assert!(server.client_mut(&vec![2]).is_none());

    assert_eq!(server.writable_clients(&vec![]), vec![vec![1]]);
    assert_eq!(server.writable_clients(&vec![vec![2]]), vec![vec![1]]);
    assert!(server.writable_clients(&vec![vec![2], vec![1]]).is_empty());
    assert_eq!(server.begin_shutdown(), vec![vec![1]]);
    assert!(!server.collect_clients(&vec![], &vec![vec![1]]));
    assert!(server.collect_clients(&vec![vec![1]], &vec![]));
    assert_eq!(
        server.recv(initial(2), Some(local(2))),
        Ok(RecvDecision::Ignore)
    );
}

#[test]
fn turns_of_the_server() {
    let mut phase = Phase::Poll;
    let mut phases = vec![];
    for _ in 0..11 {
        phases.push(phase);
        phase = phase.after(Outcome::Done);
    }
    assert_eq!(phase, Phase::Poll);
    assert_eq!(phases[5..9], [Phase::Receive, Phase::Queue, Phase::Workers, Phase::Write]);
    assert_eq!(Phase::Poll.after(Outcome::Interrupted), Phase::Poll);
    assert_eq!(Phase::Queue.after(Outcome::Blocked), Phase::Poll);
    assert_eq!(Phase::Clients.after(Outcome::Deserted), Phase::Exit);
    assert_eq!(Phase::Gather.after(Outcome::Failed), Phase::Exit);
    assert_eq!(Phase::Exit.after(Outcome::Done), Phase::Exit);

    assert_eq!(
        Phase::Clients.result(Outcome::Deserted),
        Some(Err(ServerEnd::ShutDown))
    );
    assert_eq!(
        Phase::Gather.result(Outcome::Failed),
        Some(Err(ServerEnd::Failed))
    );
    assert_eq!(
        Phase::Poll.result(Outcome::Failed),
        Some(Err(ServerEnd::Failed))
    );
    assert_eq!(Phase::Poll.result(Outcome::Interrupted), None);
    assert_eq!(Phase::Queue.result(Outcome::Blocked), None);
    assert_eq!(Phase::Send.result(Outcome::Done), None);
    assert_eq!(Phase::Exit.result(Outcome::Failed), None);
}

#[test]
fn tls_of_the_server() {
    assert!(matches!(
        tls_mode(addr(1), false, false),
        Ok(TlsMode::SelfSigned)
    ));
    assert!(matches!(
        tls_mode(addr(1), true, true),
        Ok(TlsMode::Configured)
    ));
    let global = SocketAddr {
        ip: IpAddr::V4(0x0808_0808),
        port: 1,
    };
    assert!(tls_mode(global, true, false).is_err());
    assert!(tls_mode(global, true, true).is_ok());
    assert_eq!(quic_limits().max_idle_timeout, 10000);
}

#[test]
fn packets_are_grouped() {
    let mut batch = PacketBatch::new();
    batch.push(local(1), 100, addr(5), 7);
    batch.push(local(2), 50, addr(6), 8);
    batch.push(local(1), 10, addr(5), 9);
    assert_eq!(batch.off, 160);
    assert_eq!(batch.groups.len(), 2);
    let group = &batch.groups[0];
    assert_eq!(group.local, local(1));
    assert_eq!(group.packets.len(), 2);
    assert_eq!((group.packets[1].start, group.packets[1].len), (150, 10));
    assert_eq!(group.packets[1].txtime, 9);
    assert_eq!(txtime_nanos(3, 5), 3_000_000_005);
}

#[test]
fn packets_wait_their_turn() {
    let mut queue = OutgoingQueue::new();
    let packet = |b: &'static [u8]| Outgoing {
        buf: Bytes::from_static(b),
        to: addr(1),
        from: local(2),
    };
    queue.push(packet(b"a"));
    queue.push(packet(b"b"));
    let first = queue.next().unwrap();
    assert_eq!(first.buf, Bytes::from_static(b"a"));
    queue.put_back(first);
    assert_eq!(queue.next().unwrap().buf, Bytes::from_static(b"a"));
    assert_eq!(queue.next().unwrap().buf, Bytes::from_static(b"b"));
    assert!(queue.next().is_none());
}

#[test]
fn frames_are_numbered() {
    let mut writer = StreamWriter::new(1, 2, vec![10, 20], 1328);
    let frame = || Bytes::from_static(b"frame");
    assert_eq!(writer.fec_ratio(1), 20);
    assert_eq!(writer.fec_ratio(2), 0);
    let (stream, seq, _) = writer.write_video_frame(1, frame(), 0, true, None);
    assert_eq!((stream, seq), (1, 0));
    let (stream, seq, _) = writer.write_video_frame(2, frame(), 0, false, None);
    assert_eq!((stream, seq), (1, 1));
    let (stream, seq, _) = writer.write_video_frame(3, frame(), 0, true, None);
    assert_eq!((stream, seq), (2, 0));
    let (stream, seq, chunks) = writer.write_audio_frame(4, frame(), true);
    assert_eq!((stream, seq), (1, 0));
    assert_eq!(chunks.len(), 1);
    assert_eq!(chunks[0].attachment_id, 2);
    assert_eq!(chunks[0].timestamp, 4);
    assert!(!chunks[0].frame_optional());
}
