//! Packets on their way out.

use std::collections::VecDeque;
use vstd::prelude::*;
use bytes::Bytes;
use crate::net::SocketAddr;
use crate::server::connection::LocalSocketInfo;

verus! {

/// The largest packet that is sent or received.
pub const MAX_QUIC_PACKET_SIZE: usize = 1350;

pub const NANOS_PER_SEC: u64 = 1_000_000_000;

/// A packet that waits for the socket.
pub struct Outgoing {
    pub buf: Bytes,
    pub to: SocketAddr,
    pub from: LocalSocketInfo,
}

/// A packet in the shared buffer: its place, where it goes, and when it is to
/// be sent, in nanoseconds.
#[derive(Debug, Clone, Copy, PartialEq, Eq, Structural)]
pub struct Packet {
    pub start: usize,
    pub len: usize,
    pub to: SocketAddr,
    pub txtime: u64,
}

/// The packets that leave from one local address.
pub struct PacketGroup {
    pub local: LocalSocketInfo,
    pub packets: Vec<Packet>,
}

/// Packets that lie one after the other in a shared buffer, by the local
/// address that they leave from.
pub struct PacketBatch {
    pub groups: Vec<PacketGroup>,
    /// Where the next packet begins.
    pub off: usize,
}

impl PacketBatch {
    /// The packets that leave from `local`, in the order in which they were
    /// added.
    pub open spec fn packets_from(self, local: LocalSocketInfo) -> Seq<Packet> {
        packets_in(self.groups@, local)
    }

    /// No local address has two groups, and every packet lies before the place
    /// of the next.
    pub open spec fn wf(self) -> bool {
        &&& forall|i: int, j: int|
            0 <= i < j < self.groups@.len() ==> (#[trigger] self.groups@[i]).local != (
            #[trigger] self.groups@[j]).local
        &&& forall|i: int, k: int|
            0 <= i < self.groups@.len() && 0 <= k < self.groups@[i].packets@.len()
                ==> #[trigger] self.groups@[i].packets@[k].start + self.groups@[i].packets@[k].len
                <= self.off
    }

    pub fn new() -> (batch: PacketBatch)
        ensures
            batch.wf(),
            batch.off == 0,
            batch.groups@.len() == 0,
    {
        PacketBatch { groups: Vec::new(), off: 0 }
    }

    /// Adds the packet that was written at the end of the shared buffer.
    pub fn push(&mut self, local: LocalSocketInfo, len: usize, to: SocketAddr, txtime: u64)
        requires
            old(self).wf(),
            old(self).off + len <= usize::MAX,
        ensures
            final(self).wf(),
            final(self).off == old(self).off + len,
            forall|other: LocalSocketInfo|
                other != local ==> #[trigger] final(self).packets_from(other) == old(
                    self).packets_from(other),
            final(self).packets_from(local) == old(self).packets_from(local).push(
                Packet { start: old(self).off, len, to, txtime },
            ),
    {
        let packet = Packet { start: self.off, len, to, txtime };
        let ghost before = self.groups@;
        self.off = self.off + len;
        let mut i: usize = 0;
        while i < self.groups.len()
            invariant
                i <= self.groups@.len(),
                self.groups@ == before,
                before == old(self).groups@,
                self.off == old(self).off + len,
                packet == (Packet { start: old(self).off, len, to, txtime }),
                old(self).wf(),
                forall|j: int| 0 <= j < i ==> (#[trigger] before[j]).local != local,
            decreases self.groups.len() - i,
        {
            if self.groups[i].local == local {
                let mut group = self.groups.remove(i);
                group.packets.push(packet);
                self.groups.insert(i, group);
                proof {
                    let after = self.groups@;
                    assert(after.len() == before.len());
                    assert forall|j: int| 0 <= j < after.len() && j != i implies after[j]
                        == before[j] by {}
                    lemma_group_found(before, local, i as int);
                    lemma_group_found(after, local, i as int);
                    assert forall|other: LocalSocketInfo| other != local implies packets_in(
                        after,
                        other,
                    ) == packets_in(before, other) by {
                        lemma_same_packets(before, after, other, i as int);
                    }
                    assert forall|a: int, b: int|
                        0 <= a < b < after.len() implies (#[trigger] after[a]).local != (
                    #[trigger] after[b]).local by {
                        assert(after[a].local == before[a].local);
                        assert(after[b].local == before[b].local);
                    }
                }
                return;
            }
            i += 1;
        }
        let mut packets: Vec<Packet> = Vec::new();
        packets.push(packet);
        self.groups.push(PacketGroup { local, packets });
        proof {
            let after = self.groups@;
            assert(packets_in(before, local) =~= Seq::empty()) by {
                lemma_group_absent(before, local);
            }
            lemma_group_found(after, local, before.len() as int);
            assert(packets@ =~= Seq::<Packet>::empty().push(packet));
            assert forall|other: LocalSocketInfo| other != local implies packets_in(after, other)
                == packets_in(before, other) by {
                assert(after.drop_last() =~= before);
            }
        }
    }
}

/// The packets of the group with a local address.
pub open spec fn packets_in(groups: Seq<PacketGroup>, local: LocalSocketInfo) -> Seq<Packet>
    decreases groups.len(),
{
    if groups.len() == 0 {
        Seq::empty()
    } else if groups.last().local == local {
        groups.last().packets@
    } else {
        packets_in(groups.drop_last(), local)
    }
}

proof fn lemma_group_absent(groups: Seq<PacketGroup>, local: LocalSocketInfo)
    requires
        forall|j: int| 0 <= j < groups.len() ==> (#[trigger] groups[j]).local != local,
    ensures
        packets_in(groups, local) == Seq::<Packet>::empty(),
    decreases groups.len(),
{
    if groups.len() > 0 {
        assert forall|j: int| 0 <= j < groups.drop_last().len() implies (
        #[trigger] groups.drop_last()[j]).local != local by {
            assert(groups.drop_last()[j] == groups[j]);
        }
        lemma_group_absent(groups.drop_last(), local);
    }
}

proof fn lemma_group_found(groups: Seq<PacketGroup>, local: LocalSocketInfo, i: int)
    requires
        0 <= i < groups.len(),
        groups[i].local == local,
        forall|a: int, b: int|
            0 <= a < b < groups.len() ==> (#[trigger] groups[a]).local != (
            #[trigger] groups[b]).local,
    ensures
        packets_in(groups, local) == groups[i].packets@,
    decreases groups.len(),
{
    if i < groups.len() - 1 {
        let init = groups.drop_last();
        assert(groups.last() == groups[groups.len() - 1]);
        assert forall|a: int, b: int| 0 <= a < b < init.len() implies (#[trigger] init[a]).local
            != (#[trigger] init[b]).local by {
            assert(init[a] == groups[a] && init[b] == groups[b]);
        }
        lemma_group_found(init, local, i);
    }
}

proof fn lemma_same_packets(
    before: Seq<PacketGroup>,
    after: Seq<PacketGroup>,
    local: LocalSocketInfo,
    i: int,
)
    requires
        before.len() == after.len(),
        0 <= i,
        forall|j: int| 0 <= j < after.len() && j != i ==> #[trigger] after[j] == before[j],
        i < after.len() ==> after[i].local == before[i].local && after[i].local != local,
    ensures
        packets_in(after, local) == packets_in(before, local),
    decreases before.len(),
{
    if before.len() > 0 {
        let n = before.len() - 1;
        assert(before.last() == before[n] && after.last() == after[n]);
        if n == i {
            assert(after.drop_last() =~= before.drop_last());
        } else {
            lemma_same_packets(before.drop_last(), after.drop_last(), local, i);
        }
    }
}

/// A time on the monotonic clock, in nanoseconds.
pub fn txtime_nanos(secs: u64, nanos: u32) -> (time: u64)
    requires
        secs * 1_000_000_000 + nanos <= u64::MAX,
    ensures
        time == secs * 1_000_000_000 + nanos,
{
    secs * NANOS_PER_SEC + nanos as u64
}

/// Packets that the socket could not take yet.
pub struct OutgoingQueue {
    pub packets: VecDeque<Outgoing>,
}

impl OutgoingQueue {
    pub fn new() -> (queue: OutgoingQueue)
        ensures
            queue.packets@ == Seq::<Outgoing>::empty(),
    {
        OutgoingQueue { packets: VecDeque::new() }
    }

    pub fn push(&mut self, packet: Outgoing)
        ensures
            final(self).packets@ == old(self).packets@.push(packet),
    {
        self.packets.push_back(packet);
    }

    /// The packet that has waited the longest.
    pub fn next(&mut self) -> (packet: Option<Outgoing>)
        ensures
            match packet {
                Some(p) => old(self).packets@.len() > 0 && p == old(self).packets@[0] && final(
                    self).packets@ == old(self).packets@.skip(1),
                None => old(self).packets@.len() == 0 && final(self).packets@ == old(
                    self).packets@,
            },
    {
        let packet = self.packets.pop_front();
        proof {
            if packet is Some {
                assert(self.packets@ =~= old(self).packets@.skip(1));
            }
        }
        packet
    }

    /// Puts back a packet that the socket did not take.
    pub fn put_back(&mut self, packet: Outgoing)
        ensures
            final(self).packets@ == seq![packet] + old(self).packets@,
    {
        self.packets.push_front(packet);
        assert(self.packets@ =~= seq![packet] + old(self).packets@);
    }
}

/// A packet that is put back is the next one again, and none is lost.
pub proof fn put_back_undoes_next(queue: Seq<Outgoing>)
    requires
        queue.len() > 0,
    ensures
        seq![queue[0]] + queue.skip(1) == queue,
{
    assert(seq![queue[0]] + queue.skip(1) =~= queue);
}

} // verus!
