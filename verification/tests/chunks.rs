use bytes::Bytes;
use mmserver::server::chunk::{base_chunks, iter_chunks, Chunk, FecScheme};
use mmserver::server::stream::StreamWriter;

fn repair_chunks(len: usize, mtu: usize, ratio: f32) -> Option<u32> {
    if ratio > 0.0 {
        Some((base_chunks(len, mtu) as f32 * ratio).ceil() as u32)
    } else {
        None
    }
}

fn frame() -> Bytes {
    Bytes::from(vec![9; 3536])
}

fn check_plain(chunks: Vec<Chunk>) {
    let mut chunks = chunks.into_iter();
    let chunk = chunks.next().unwrap();
    assert_eq!(chunk.index, 0);
    assert_eq!(chunk.num_chunks, 3);
    assert_eq!(chunk.data.len(), 1200);
    assert!(chunk.fec_metadata.is_none());

    let chunk = chunks.next().unwrap();
    assert_eq!(chunk.index, 1);
    assert_eq!(chunk.num_chunks, 3);
    assert_eq!(chunk.data.len(), 1200);
    assert!(chunk.fec_metadata.is_none());

    let chunk = chunks.next().unwrap();
    assert_eq!(chunk.index, 2);
    assert_eq!(chunk.num_chunks, 3);
    assert_eq!(chunk.data.len(), 1136);
    assert!(chunk.fec_metadata.is_none());

    assert!(chunks.next().is_none());
}

fn check_fec(chunks: Vec<Chunk>) {
    let mut chunks = chunks.into_iter();
    for index in 0..4 {
        let chunk = chunks.next().unwrap();
        assert_eq!(chunk.index, index);
        assert_eq!(chunk.num_chunks, 4);
        assert_eq!(chunk.data.len(), 1200);
        assert_eq!(
            chunk.fec_metadata.as_ref().unwrap().fec_scheme,
            FecScheme::Raptorq
        );
        assert_eq!(chunk.fec_metadata.as_ref().unwrap().fec_oti.len(), 12);
    }
    assert!(chunks.next().is_none());
}

#[test]
fn chunk_test_iter_chunks() {
    check_plain(iter_chunks(frame(), 1200, repair_chunks(3536, 1200, 0.0)));
}

#[test]
fn chunk_test_iter_chunks_fec() {
    check_fec(iter_chunks(frame(), 1200, repair_chunks(3536, 1200, 0.15)));
}

#[test]
fn stream_test_iter_chunks() {
    let mut writer = StreamWriter::new(1, 2, vec![], 1328);
    let (stream_seq, seq, messages) =
        writer.write_video_frame(5, frame(), 0, false, repair_chunks(3536, 1200, 0.0));
    assert_eq!((stream_seq, seq), (0, 0));
    check_plain(
        messages
            .into_iter()
            .map(|m| Chunk {
                index: m.chunk,
                num_chunks: m.num_chunks,
                data: m.data,
                fec_metadata: m.fec_metadata,
            })
            .collect(),
    );
    check_plain(iter_chunks(frame(), 1200, None));
}

#[test]
fn stream_test_iter_chunks_fec() {
    let mut writer = StreamWriter::new(1, 2, vec![], 1328);
    let (_, _, messages) =
        writer.write_video_frame(5, frame(), 0, true, repair_chunks(3536, 1200, 0.15));
    check_fec(
        messages
            .into_iter()
            .map(|m| Chunk {
                index: m.chunk,
                num_chunks: m.num_chunks,
                data: m.data,
                fec_metadata: m.fec_metadata,
            })
            .collect(),
    );
}

#[test]
fn frames_can_be_restored_from_chunks() {
    let data: Vec<u8> = (0..3536u32).map(|i| (i * 7 % 251) as u8).collect();
    let plain: Vec<u8> = iter_chunks(Bytes::from(data.clone()), 1200, None)
        .into_iter()
        .flat_map(|c| c.data.to_vec())
        .collect();
    assert_eq!(plain, data);

    let chunks = iter_chunks(Bytes::from(data.clone()), 1200, Some(2));
    assert_eq!(chunks.len(), 5);
    let meta = chunks[0].fec_metadata.as_ref().unwrap();
    let mut oti = [0u8; 12];
    oti.copy_from_slice(&meta.fec_oti);
    let config = raptorq::ObjectTransmissionInformation::deserialize(&oti);
    let mut decoder = raptorq::Decoder::new(config);
    let mut restored = None;
    for chunk in chunks.iter().skip(2) {
        let meta = chunk.fec_metadata.as_ref().unwrap();
        let mut id = [0u8; 4];
        id.copy_from_slice(&meta.fec_payload_id);
        restored = decoder.decode(raptorq::EncodingPacket::new(
            raptorq::PayloadId::deserialize(&id),
            chunk.data.to_vec(),
        ));
    }
    assert_eq!(restored, Some(data));
}

#[test]
fn empty_frames_have_no_chunks() {
    assert_eq!(iter_chunks(Bytes::new(), 1200, None).len(), 0);
    assert_eq!(base_chunks(0, 1200), 0);
    assert_eq!(base_chunks(1200, 1200), 1);
    assert_eq!(base_chunks(1201, 1200), 2);
}

#[test]
fn coded_chunks_hold_the_frame() {
    let frame: Vec<u8> = (0..3536u32).map(|i| (i % 251) as u8).collect();
    let chunks = iter_chunks(bytes::Bytes::from(frame.clone()), 1200, Some(2));
    assert_eq!(chunks.len(), 5);
    let mut joined = Vec::new();
    for chunk in &chunks[..3] {
        joined.extend_from_slice(&chunk.data);
    }
    assert_eq!(joined.len(), 3600);
    assert_eq!(joined[..3536], frame[..]);
    assert!(joined[3536..].iter().all(|b| *b == 0));
}
