//! Cutting frames into chunks that fit into a datagram, with or without
//! forward error correction.

use vstd::prelude::*;
use bytes::Bytes;
use crate::bytes_ext::{bytes_clone, bytes_len, bytes_split_to};

verus! {

/// The largest number of symbols in one block of the code.
pub const SYMBOLS_PER_BLOCK: u64 = 56403;

/// The codes that lost chunks can be restored with.
#[derive(Debug, Clone, Copy, PartialEq, Eq, Structural)]
pub enum FecScheme {
    Raptorq,
}

/// How lost chunks can be restored.
pub struct FecMetadata {
    pub fec_scheme: FecScheme,
    pub fec_payload_id: Bytes,
    pub fec_oti: Bytes,
}

pub struct Chunk {
    pub index: u32,
    pub num_chunks: u32,
    pub data: Bytes,
    pub fec_metadata: Option<FecMetadata>,
}

/// A packet of the code: its id, and its data.
pub struct FecPacket {
    pub payload_id: Bytes,
    pub data: Bytes,
}

/// The packets of the code for some data, as pairs of an id and of data.
pub uninterp spec fn raptorq_packets(data: Seq<u8>, mtu: u16, repair: u32) -> Seq<
    (Seq<u8>, Seq<u8>),
>;

/// The description of the code for some data.
pub uninterp spec fn raptorq_oti(data: Seq<u8>, mtu: u16) -> Seq<u8>;

pub open spec fn div_ceil(n: int, d: int) -> int {
    if n % d == 0 {
        n / d
    } else {
        n / d + 1
    }
}

/// The size of a packet: the largest multiple of eight that fits, or the whole
/// of a small one.
pub open spec fn symbol_size(mtu: u16) -> int {
    if mtu >= 64 {
        mtu - mtu % 8
    } else {
        mtu as int
    }
}

/// The number of packets that the data alone takes.
pub open spec fn symbol_count(len: int, mtu: u16) -> int {
    div_ceil(len, symbol_size(mtu))
}

/// What the code can be applied to: there is data, it takes at most 255
/// blocks, and all packets of a block can be numbered.
pub open spec fn encodable(len: int, mtu: u16, repair: u32) -> bool {
    &&& len > 0
    &&& mtu > 0
    &&& symbol_count(len, mtu) <= 255 * SYMBOLS_PER_BLOCK
    &&& SYMBOLS_PER_BLOCK + repair <= 0x100_0000
}

/// The code keeps data of at most this size in one piece.
pub const ONE_PIECE_SIZE: u64 = 4194304;

/// The data is in one block of the code, which is not divided further.
pub open spec fn in_one_piece(len: int, mtu: u16) -> bool {
    &&& symbol_count(len, mtu) <= SYMBOLS_PER_BLOCK
    &&& symbol_count(len, mtu) * symbol_size(mtu) <= ONE_PIECE_SIZE
}

/// The bytes of some data that a packet has room for, with zeros after its
/// end.
pub open spec fn padded_symbol(data: Seq<u8>, size: int, i: int) -> Seq<u8> {
    Seq::new(
        size as nat,
        |k: int|
            if i * size + k < data.len() {
                data[i * size + k]
            } else {
                0u8
            },
    )
}

pub open spec fn packet_view(packet: FecPacket) -> (Seq<u8>, Seq<u8>) {
    (crate::bytes_ext::contents(packet.payload_id), crate::bytes_ext::contents(packet.data))
}

/// `raptorq::Encoder::with_defaults`, `get_config`, `get_encoded_packets`: the
/// description of the code for some data, and its packets. All packets have
/// the same size; there is one for each symbol of the data, and `repair` more
/// for each block. The first packets of data in one piece hold the data itself,
/// in order. What the others hold is not stated.
#[verifier::external_body]
fn raptorq_encode(data: &Bytes, mtu: u16, repair: u32) -> (encoded: (Bytes, Vec<FecPacket>))
    requires
        encodable(crate::bytes_ext::contents(*data).len() as int, mtu, repair),
    ensures
        crate::bytes_ext::contents(encoded.0) == raptorq_oti(
            crate::bytes_ext::contents(*data),
            mtu,
        ),
        crate::bytes_ext::contents(encoded.0).len() == 12,
        encoded.1@.map_values(|p: FecPacket| packet_view(p)) == raptorq_packets(
            crate::bytes_ext::contents(*data),
            mtu,
            repair,
        ),
        encoded.1@.len() == symbol_count(crate::bytes_ext::contents(*data).len() as int, mtu)
            + repair * div_ceil(
            symbol_count(crate::bytes_ext::contents(*data).len() as int, mtu),
            SYMBOLS_PER_BLOCK as int,
        ),
        forall|i: int|
            0 <= i < encoded.1@.len() ==> crate::bytes_ext::contents(
                (#[trigger] encoded.1@[i]).data,
            ).len() == symbol_size(mtu) && crate::bytes_ext::contents(
                encoded.1@[i].payload_id,
            ).len() == 4,
        in_one_piece(crate::bytes_ext::contents(*data).len() as int, mtu) ==> forall|i: int|
            0 <= i < symbol_count(crate::bytes_ext::contents(*data).len() as int, mtu)
                ==> crate::bytes_ext::contents((#[trigger] encoded.1@[i]).data) == padded_symbol(
                crate::bytes_ext::contents(*data),
                symbol_size(mtu),
                i,
            ),
{
    let encoder = raptorq::Encoder::with_defaults(data, mtu);
    let oti = Bytes::copy_from_slice(&encoder.get_config().serialize());
    let packets = encoder.get_encoded_packets(repair).into_iter().map(
        |p| FecPacket {
            payload_id: Bytes::copy_from_slice(&p.payload_id().serialize()),
            data: Bytes::copy_from_slice(p.data()),
        },
    ).collect();
    (oti, packets)
}

/// The number of chunks that a frame takes without error correction.
pub fn base_chunks(len: usize, mtu: usize) -> (chunks: u32)
    requires
        mtu > 0,
        div_ceil(len as int, mtu as int) <= u32::MAX,
    ensures
        chunks == div_ceil(len as int, mtu as int),
{
    proof {
        lemma_quotient(len as int, mtu as int);
    }
    let whole: usize = len / mtu;
    if len % mtu == 0 {
        whole as u32
    } else {
        (whole + 1) as u32
    }
}

proof fn lemma_quotient(n: int, d: int)
    requires
        n >= 0,
        d > 0,
    ensures
        n / d <= n,
        n % d != 0 ==> n / d < n,
{
    assert(n / d <= n && (n % d != 0 ==> n / d < n)) by (nonlinear_arith)
        requires
            n >= 0,
            d > 0,
    ;
}

/// The end of a chunk.
pub open spec fn chunk_end(len: int, mtu: int, i: int) -> int {
    if (i + 1) * mtu < len {
        (i + 1) * mtu
    } else {
        len
    }
}

/// A frame, cut into pieces.
pub open spec fn plain_chunks(chunks: Seq<Chunk>, frame: Seq<u8>, mtu: int) -> bool {
    &&& chunks.len() == div_ceil(frame.len() as int, mtu)
    &&& forall|i: int|
        0 <= i < chunks.len() ==> {
            &&& (#[trigger] chunks[i]).index == i
            &&& chunks[i].num_chunks == chunks.len()
            &&& crate::bytes_ext::contents(chunks[i].data) == frame.subrange(
                i * mtu,
                chunk_end(frame.len() as int, mtu, i),
            )
            &&& chunks[i].fec_metadata is None
        }
}

/// The packets of the code for a frame, as chunks.
pub open spec fn fec_chunks(
    chunks: Seq<Chunk>,
    packets: Seq<(Seq<u8>, Seq<u8>)>,
    oti: Seq<u8>,
) -> bool {
    &&& chunks.len() == packets.len()
    &&& forall|i: int|
        0 <= i < chunks.len() ==> {
            &&& (#[trigger] chunks[i]).index == i as u32
            &&& chunks[i].num_chunks == packets.len() as u32
            &&& crate::bytes_ext::contents(chunks[i].data) == packets[i].1
            &&& chunks[i].fec_metadata is Some
            &&& chunks[i].fec_metadata->0.fec_scheme == FecScheme::Raptorq
            &&& crate::bytes_ext::contents(chunks[i].fec_metadata->0.fec_payload_id)
                == packets[i].0
            &&& crate::bytes_ext::contents(chunks[i].fec_metadata->0.fec_oti) == oti
        }
}

/// The first chunks hold the frame, in order.
pub open spec fn begin_with_frame(chunks: Seq<Chunk>, frame: Seq<u8>, mtu: u16) -> bool {
    &&& chunks.len() >= symbol_count(frame.len() as int, mtu)
    &&& forall|i: int|
        0 <= i < symbol_count(frame.len() as int, mtu) ==> crate::bytes_ext::contents(
            (#[trigger] chunks[i]).data,
        ) == padded_symbol(frame, symbol_size(mtu), i)
}

/// How many chunks of a code there are, and how long their parts are: all have
/// the same size.
pub open spec fn coded_sizes(chunks: Seq<Chunk>, len: int, mtu: u16, repair: u32) -> bool {
    &&& chunks.len() == symbol_count(len, mtu) + repair * div_ceil(
        symbol_count(len, mtu),
        SYMBOLS_PER_BLOCK as int,
    )
    &&& forall|i: int|
        0 <= i < chunks.len() ==> {
            &&& crate::bytes_ext::contents((#[trigger] chunks[i]).data).len() == symbol_size(mtu)
            &&& chunks[i].fec_metadata is Some
            &&& crate::bytes_ext::contents(chunks[i].fec_metadata->0.fec_payload_id).len() == 4
            &&& crate::bytes_ext::contents(chunks[i].fec_metadata->0.fec_oti).len() == 12
        }
}

/// A frame can be cut into chunks.
pub open spec fn chunkable(len: int, mtu: usize, repair: Option<u32>) -> bool {
    match repair {
        Some(repair) => encodable(len, mtu as u16, repair),
        None => mtu > 0 && div_ceil(len, mtu as int) <= u32::MAX,
    }
}

/// What the chunks of a frame are.
pub open spec fn chunks_of(
    chunks: Seq<Chunk>,
    frame: Seq<u8>,
    mtu: usize,
    repair: Option<u32>,
) -> bool {
    match repair {
        Some(repair) => {
            &&& fec_chunks(
                chunks,
                raptorq_packets(frame, mtu as u16, repair),
                raptorq_oti(frame, mtu as u16),
            )
            &&& coded_sizes(chunks, frame.len() as int, mtu as u16, repair)
            &&& in_one_piece(frame.len() as int, mtu as u16) ==> begin_with_frame(
                chunks,
                frame,
                mtu as u16,
            )
        },
        None => plain_chunks(chunks, frame, mtu as int),
    }
}

/// Cuts a frame into chunks of at most `mtu` bytes. With `repair`, the chunks
/// are those of an error correcting code, with so many more chunks for each
/// block.
pub fn iter_chunks(buf: Bytes, mtu: usize, repair: Option<u32>) -> (chunks: Vec<Chunk>)
    requires
        chunkable(crate::bytes_ext::contents(buf).len() as int, mtu, repair),
    ensures
        chunks_of(chunks@, crate::bytes_ext::contents(buf), mtu, repair),
{
    match repair {
        Some(repair) => {
            let (oti, packets) = raptorq_encode(&buf, mtu as u16, repair);
            let ghost views = packets@.map_values(|p: FecPacket| packet_view(p));
            let chunks = packets_to_chunks(&oti, packets);
            proof {
                let frame = crate::bytes_ext::contents(buf);
                let count = symbol_count(frame.len() as int, mtu as u16);
                assert(views.len() == packets@.len());
                assert forall|i: int| 0 <= i < chunks@.len() implies {
                    &&& crate::bytes_ext::contents((#[trigger] chunks@[i]).data).len()
                        == symbol_size(mtu as u16)
                    &&& crate::bytes_ext::contents(
                        chunks@[i].fec_metadata->0.fec_payload_id,
                    ).len() == 4
                } by {
                    assert(views[i] == packet_view(packets@[i]));
                }
                if in_one_piece(frame.len() as int, mtu as u16) {
                    assert(repair * div_ceil(count, SYMBOLS_PER_BLOCK as int) >= 0)
                        by (nonlinear_arith)
                        requires
                            count >= 0,
                    ;
                    assert forall|i: int| 0 <= i < count implies crate::bytes_ext::contents(
                        (#[trigger] chunks@[i]).data,
                    ) == padded_symbol(frame, symbol_size(mtu as u16), i) by {
                        assert(views[i] == packet_view(packets@[i]));
                    }
                }
            }
            chunks
        },
        None => cut_frame(buf, mtu),
    }
}

/// Numbers the packets of a code, and adds its description to each.
pub fn packets_to_chunks(oti: &Bytes, packets: Vec<FecPacket>) -> (chunks: Vec<Chunk>)
    ensures
        fec_chunks(
            chunks@,
            packets@.map_values(|p: FecPacket| packet_view(p)),
            crate::bytes_ext::contents(*oti),
        ),
{
    let num_chunks: u32 = packets.len() as u32;
    let ghost views = packets@.map_values(|p: FecPacket| packet_view(p));
    let mut chunks: Vec<Chunk> = Vec::new();
    let mut i: usize = 0;
    while i < packets.len()
        invariant
            i <= packets@.len(),
            chunks@.len() == i,
            num_chunks == packets@.len() as u32,
            views == packets@.map_values(|p: FecPacket| packet_view(p)),
            forall|j: int|
                0 <= j < i ==> {
                    &&& (#[trigger] chunks@[j]).index == j as u32
                    &&& chunks@[j].num_chunks == num_chunks
                    &&& crate::bytes_ext::contents(chunks@[j].data) == views[j].1
                    &&& chunks@[j].fec_metadata is Some
                    &&& chunks@[j].fec_metadata->0.fec_scheme == FecScheme::Raptorq
                    &&& crate::bytes_ext::contents(chunks@[j].fec_metadata->0.fec_payload_id)
                        == views[j].0
                    &&& crate::bytes_ext::contents(chunks@[j].fec_metadata->0.fec_oti)
                        == crate::bytes_ext::contents(*oti)
                },
        decreases packets.len() - i,
    {
        let packet = &packets[i];
        assert(views[i as int] == packet_view(*packet));
        chunks.push(
            Chunk {
                index: i as u32,
                num_chunks,
                data: bytes_clone(&packet.data),
                fec_metadata: Some(
                    FecMetadata {
                        fec_scheme: FecScheme::Raptorq,
                        fec_payload_id: bytes_clone(&packet.payload_id),
                        fec_oti: bytes_clone(oti),
                    },
                ),
            },
        );
        i += 1;
    }
    chunks
}

fn cut_frame(buf: Bytes, mtu: usize) -> (chunks: Vec<Chunk>)
    requires
        mtu > 0,
        div_ceil(crate::bytes_ext::contents(buf).len() as int, mtu as int) <= u32::MAX,
    ensures
        plain_chunks(chunks@, crate::bytes_ext::contents(buf), mtu as int),
{
    let ghost frame = crate::bytes_ext::contents(buf);
    let len: usize = bytes_len(&buf);
    let num_chunks: u32 = base_chunks(len, mtu);
    let mut buf = buf;
    let mut chunks: Vec<Chunk> = Vec::new();
    let mut next: u32 = 0;
    assert(frame.skip(0) =~= frame);
    let mut left: usize = len;
    while left > 0
        invariant
            mtu > 0,
            len == frame.len(),
            num_chunks == div_ceil(len as int, mtu as int),
            left == crate::bytes_ext::contents(buf).len(),
            next <= num_chunks,
            chunks@.len() == next,
            left > 0 ==> next * mtu == len - left,
            left == 0 ==> next == num_chunks,
            crate::bytes_ext::contents(buf) == frame.skip(len - left),
            forall|i: int|
                0 <= i < chunks@.len() ==> {
                    &&& (#[trigger] chunks@[i]).index == i
                    &&& chunks@[i].num_chunks == num_chunks
                    &&& crate::bytes_ext::contents(chunks@[i].data) == frame.subrange(
                        i * mtu,
                        chunk_end(frame.len() as int, mtu as int, i),
                    )
                    &&& chunks@[i].fec_metadata is None
                },
        decreases left,
    {
        let size: usize = if left < mtu {
            left
        } else {
            mtu
        };
        let ghost start = (len - left) as int;
        proof {
            lemma_chunk_count(len as int, mtu as int, next as int, left as int);
        }
        let data = bytes_split_to(&mut buf, size);
        proof {
            assert(crate::bytes_ext::contents(data) =~= frame.subrange(start, start + size));
            assert((next + 1) * mtu == next * mtu + mtu) by (nonlinear_arith);
            assert(chunk_end(len as int, mtu as int, next as int) == start + size);
            assert(crate::bytes_ext::contents(buf) =~= frame.skip(start + size));
        }
        chunks.push(Chunk { index: next, num_chunks, data, fec_metadata: None });
        next += 1;
        left = left - size;
    }
    proof {
        if len == 0 {
            assert(0int % mtu as int == 0) by (nonlinear_arith)
                requires
                    mtu > 0,
            ;
        }
    }
    chunks
}

proof fn lemma_chunk_count(len: int, mtu: int, next: int, left: int)
    requires
        mtu > 0,
        left > 0,
        next >= 0,
        next * mtu == len - left,
    ensures
        next < div_ceil(len, mtu),
        left <= mtu ==> next + 1 == div_ceil(len, mtu),
{
    assert(len == next * mtu + left);
    if left < mtu {
        vstd::arithmetic::div_mod::lemma_fundamental_div_mod_converse(len, mtu, next, left);
    } else {
        vstd::arithmetic::div_mod::lemma_fundamental_div_mod(left, mtu);
        let q = left / mtu;
        let r = left % mtu;
        assert(len == (next + q) * mtu + r) by (nonlinear_arith)
            requires
                len == next * mtu + left,
                left == mtu * q + r,
        ;
        assert(0 <= r < mtu) by {
            vstd::arithmetic::div_mod::lemma_mod_division_less_than_divisor(left, mtu);
        }
        vstd::arithmetic::div_mod::lemma_fundamental_div_mod_converse(len, mtu, next + q, r);
        assert(q >= 1) by (nonlinear_arith)
            requires
                left >= mtu,
                left == mtu * q + r,
                r < mtu,
                mtu > 0,
        ;
        if left == mtu {
            assert(q == 1 && r == 0) by (nonlinear_arith)
                requires
                    left == mtu,
                    left == mtu * q + r,
                    0 <= r < mtu,
                    mtu > 0,
            ;
        }
    }
}

/// The bytes of chunks, one after the other.
pub open spec fn joined(chunks: Seq<Chunk>) -> Seq<u8>
    decreases chunks.len(),
{
    if chunks.len() == 0 {
        Seq::empty()
    } else {
        joined(chunks.drop_last()) + crate::bytes_ext::contents(chunks.last().data)
    }
}

proof fn lemma_joined_prefix(chunks: Seq<Chunk>, frame: Seq<u8>, mtu: int, n: int)
    requires
        mtu > 0,
        0 < n <= chunks.len(),
        plain_chunks(chunks, frame, mtu),
    ensures
        joined(chunks.take(n)) == frame.take(chunk_end(frame.len() as int, mtu, n - 1)),
        0 <= (n - 1) * mtu < frame.len(),
    decreases n,
{
    let len = frame.len() as int;
    let i = n - 1;
    let head = chunks.take(n);
    assert(head.drop_last() =~= chunks.take(i));
    assert(head.last() == chunks[i]);
    lemma_last_start(len, mtu, i);
    if i == 0 {
        assert(chunks.take(0) =~= Seq::empty());
        assert(joined(chunks.take(0)) =~= Seq::empty());
        assert(0 * mtu == 0) by (nonlinear_arith);
        assert(chunks[0].index == 0);
        assert(joined(head) =~= crate::bytes_ext::contents(chunks[0].data));
        assert(joined(head) =~= frame.take(chunk_end(len, mtu, 0)));
    } else {
        lemma_joined_prefix(chunks, frame, mtu, i);
        assert((i - 1 + 1) * mtu == i * mtu);
        assert(chunk_end(len, mtu, i - 1) == i * mtu);
        assert(i * mtu < (i + 1) * mtu) by (nonlinear_arith)
            requires
                mtu > 0,
        ;
        assert(joined(head) =~= frame.take(chunk_end(len, mtu, i)));
    }
}

proof fn lemma_last_start(len: int, mtu: int, i: int)
    requires
        mtu > 0,
        len >= 0,
        0 <= i < div_ceil(len, mtu),
    ensures
        0 <= i * mtu < len,
        i == div_ceil(len, mtu) - 1 ==> (i + 1) * mtu >= len,
{
    vstd::arithmetic::div_mod::lemma_fundamental_div_mod(len, mtu);
    vstd::arithmetic::div_mod::lemma_mod_division_less_than_divisor(len, mtu);
    let q = len / mtu;
    let r = len % mtu;
    assert(0 <= i * mtu < len) by (nonlinear_arith)
        requires
            mtu > 0,
            len == mtu * q + r,
            0 <= r < mtu,
            0 <= i,
            r == 0 ==> i < q,
            r != 0 ==> i <= q,
    ;
    if i == div_ceil(len, mtu) - 1 {
        assert((i + 1) * mtu >= len) by (nonlinear_arith)
            requires
                mtu > 0,
                len == mtu * q + r,
                0 <= r < mtu,
                r == 0 ==> i + 1 == q,
                r != 0 ==> i + 1 == q + 1,
        ;
    }
}

/// Without error correction, the chunks of a frame joined in order are the
/// frame.
pub proof fn chunks_join_to_frame(chunks: Seq<Chunk>, frame: Seq<u8>, mtu: int)
    requires
        mtu > 0,
        plain_chunks(chunks, frame, mtu),
    ensures
        joined(chunks) == frame,
{
    let n = chunks.len() as int;
    if n == 0 {
        vstd::arithmetic::div_mod::lemma_fundamental_div_mod(frame.len() as int, mtu);
        assert(frame.len() == 0) by (nonlinear_arith)
            requires
                frame.len() as int == mtu * (frame.len() as int / mtu) + frame.len() as int % mtu,
                frame.len() as int % mtu == 0,
                frame.len() as int / mtu == 0,
        ;
        assert(joined(chunks) =~= frame);
    } else {
        lemma_joined_prefix(chunks, frame, mtu, n);
        lemma_last_start(frame.len() as int, mtu, n - 1);
        assert(chunks.take(n) =~= chunks);
        assert(frame.take(frame.len() as int) =~= frame);
    }
}

/// The bytes of a frame, with zeros up to the end of the last chunk.
pub open spec fn padded_frame(frame: Seq<u8>, size: int, count: int) -> Seq<u8> {
    Seq::new(
        (count * size) as nat,
        |k: int|
            if k < frame.len() {
                frame[k]
            } else {
                0u8
            },
    )
}

proof fn lemma_joined_symbols(chunks: Seq<Chunk>, frame: Seq<u8>, size: int, n: int)
    requires
        size > 0,
        0 <= n <= chunks.len(),
        forall|i: int|
            0 <= i < n ==> crate::bytes_ext::contents((#[trigger] chunks[i]).data) == padded_symbol(
                frame,
                size,
                i,
            ),
    ensures
        joined(chunks.take(n)) == padded_frame(frame, size, n),
    decreases n,
{
    if n == 0 {
        assert(chunks.take(0) =~= Seq::empty());
        assert(joined(chunks.take(0)) =~= Seq::empty());
        assert(0 * size == 0) by (nonlinear_arith);
        assert(joined(chunks.take(0)) =~= padded_frame(frame, size, 0));
    } else {
        let head = chunks.take(n);
        assert(head.drop_last() =~= chunks.take(n - 1));
        assert(head.last() == chunks[n - 1]);
        lemma_joined_symbols(chunks, frame, size, n - 1);
        assert(n * size == (n - 1) * size + size) by (nonlinear_arith);
        assert((n - 1) * size >= 0) by (nonlinear_arith)
            requires
                n >= 1,
                size > 0,
        ;
        assert(joined(head) =~= padded_frame(frame, size, n));
    }
}

/// With error correction, the first chunks of a frame joined in order are the
/// frame and some zeros: while nothing is lost, nothing has to be restored.
pub proof fn coded_chunks_begin_with_frame(chunks: Seq<Chunk>, frame: Seq<u8>, mtu: u16)
    requires
        mtu > 0,
        frame.len() > 0,
        begin_with_frame(chunks, frame, mtu),
    ensures
        joined(chunks.take(symbol_count(frame.len() as int, mtu))).take(frame.len() as int)
            == frame,
{
    let len = frame.len() as int;
    let size = symbol_size(mtu);
    let count = symbol_count(len, mtu);
    assert(count >= 0 && count * size >= len) by {
        vstd::arithmetic::div_mod::lemma_fundamental_div_mod(len, size);
        vstd::arithmetic::div_mod::lemma_mod_division_less_than_divisor(len, size);
        let q = len / size;
        let r = len % size;
        assert(q >= 0) by (nonlinear_arith)
            requires
                len == size * q + r,
                len > 0,
                0 <= r < size,
        ;
        assert(count * size >= len) by (nonlinear_arith)
            requires
                len == size * q + r,
                0 <= r < size,
                r == 0 ==> count == q,
                r != 0 ==> count == q + 1,
        ;
    }
    lemma_joined_symbols(chunks, frame, size, count);
    assert(joined(chunks.take(count)).take(len) =~= frame);
}

/// No chunk of a code is longer than the limit.
pub proof fn coded_chunk_sizes_are_bounded(
    chunks: Seq<Chunk>,
    frame: Seq<u8>,
    mtu: u16,
    repair: u32,
    i: int,
)
    requires
        encodable(frame.len() as int, mtu, repair),
        chunks_of(chunks, frame, mtu as usize, Some(repair)),
        0 <= i < chunks.len(),
    ensures
        0 < crate::bytes_ext::contents(chunks[i].data).len() <= mtu,
{
}

/// No chunk is longer than the limit, and only the last may be shorter.
pub proof fn chunk_sizes_are_bounded(chunks: Seq<Chunk>, frame: Seq<u8>, mtu: int, i: int)
    requires
        mtu > 0,
        plain_chunks(chunks, frame, mtu),
        0 <= i < chunks.len(),
    ensures
        0 < crate::bytes_ext::contents(chunks[i].data).len() <= mtu,
        i < chunks.len() - 1 ==> crate::bytes_ext::contents(chunks[i].data).len() == mtu,
{
    lemma_last_start(frame.len() as int, mtu, i);
    assert((i + 1) * mtu == i * mtu + mtu) by (nonlinear_arith);
    assert(chunks[i].index == i);
    if i < chunks.len() - 1 {
        lemma_last_start(frame.len() as int, mtu, i + 1);
    }
}

} // verus!
