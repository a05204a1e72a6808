//! Sizes of encoded frames.

use vstd::prelude::*;

verus! {

/// The smallest and the largest frame, and the total. Times are nanoseconds
/// on the caller's clock.
#[derive(Debug, Clone, Copy, PartialEq, Eq, Structural)]
pub struct LayerStats {
    pub start: u64,
    pub min: usize,
    pub max: usize,
    pub total: u64,
}

impl LayerStats {
    /// Nothing has been recorded yet.
    pub open spec fn empty(start: u64) -> LayerStats {
        LayerStats { start, min: 0, max: 0, total: 0 }
    }

    /// A minimum of zero counts as not yet known.
    pub open spec fn with_frame(self, len: usize) -> LayerStats {
        LayerStats {
            start: self.start,
            min: if self.min == 0 || len < self.min { len } else { self.min },
            max: if len > self.max { len } else { self.max },
            total: (self.total + len) as u64,
        }
    }

    pub fn new(start: u64) -> (stats: LayerStats)
        ensures
            stats == LayerStats::empty(start),
    {
        LayerStats { start, min: 0, max: 0, total: 0 }
    }

    pub fn record_frame_size(&mut self, len: usize)
        requires
            old(self).total + len <= u64::MAX,
        ensures
            *final(self) == old(self).with_frame(len),
    {
        self.total = self.total + len as u64;
        if self.min == 0 || len < self.min {
            self.min = len;
        }
        if len > self.max {
            self.max = len;
        }
    }
}

/// Statistics of a stream: of all frames, of keyframes, and of the other
/// frames by layer.
pub struct EncodeStats {
    pub start: u64,
    pub stream_stats: LayerStats,
    pub keyframe_stats: LayerStats,
    pub layer_stats: Vec<LayerStats>,
}

/// The statistics by layer, once those up to `layer` exist.
pub open spec fn grown(layers: Seq<LayerStats>, layer: int, start: u64) -> Seq<LayerStats> {
    if layer < layers.len() {
        layers
    } else {
        layers + Seq::new((layer + 1 - layers.len()) as nat, |i: int| LayerStats::empty(start))
    }
}

impl EncodeStats {
    pub fn new(start: u64) -> (stats: EncodeStats)
        ensures
            stats.start == start,
            stats.stream_stats == LayerStats::empty(start),
            stats.keyframe_stats == LayerStats::empty(start),
            stats.layer_stats@ == Seq::<LayerStats>::empty(),
    {
        EncodeStats {
            start,
            stream_stats: LayerStats::new(start),
            keyframe_stats: LayerStats::new(start),
            layer_stats: Vec::new(),
        }
    }

    /// There is room left to count a frame.
    pub open spec fn can_record(self, is_keyframe: bool, layer: u32, len: usize) -> bool {
        &&& self.stream_stats.total + len <= u64::MAX
        &&& is_keyframe ==> self.keyframe_stats.total + len <= u64::MAX
        &&& !is_keyframe ==> layer < usize::MAX && grown(
            self.layer_stats@,
            layer as int,
            self.start,
        )[layer as int].total + len <= u64::MAX
    }

    /// One more frame was counted: in the totals, and either as a keyframe or
    /// in its layer.
    pub open spec fn counts(
        self,
        before: EncodeStats,
        is_keyframe: bool,
        layer: u32,
        len: usize,
    ) -> bool {
        &&& self.start == before.start
        &&& self.stream_stats == before.stream_stats.with_frame(len)
        &&& is_keyframe ==> {
            &&& self.keyframe_stats == before.keyframe_stats.with_frame(len)
            &&& self.layer_stats@ == before.layer_stats@
        }
        &&& !is_keyframe ==> {
            let layers = grown(before.layer_stats@, layer as int, before.start);
            &&& self.keyframe_stats == before.keyframe_stats
            &&& self.layer_stats@ == layers.update(
                layer as int,
                layers[layer as int].with_frame(len),
            )
        }
    }

    /// Counts a frame: in the totals, and either as a keyframe or in its layer.
    pub fn record_frame_size(&mut self, is_keyframe: bool, layer: u32, len: usize)
        requires
            old(self).can_record(is_keyframe, layer, len),
        ensures
            final(self).counts(*old(self), is_keyframe, layer, len),
    {
        self.stream_stats.record_frame_size(len);
        if is_keyframe {
            self.keyframe_stats.record_frame_size(len);
        } else {
            let layer: usize = layer as usize;
            let start: u64 = self.start;
            let ghost before = self.layer_stats@;
            while self.layer_stats.len() <= layer
                invariant
                    layer < usize::MAX,
                    start == self.start,
                    self.stream_stats == old(self).stream_stats.with_frame(len),
                    self.keyframe_stats == old(self).keyframe_stats,
                    self.start == old(self).start,
                    self.layer_stats@.len() >= before.len(),
                    before.len() > layer ==> self.layer_stats@ == before,
                    before.len() <= layer ==> self.layer_stats@.len() <= layer + 1,
                    self.layer_stats@ =~= before + Seq::new(
                        (self.layer_stats@.len() - before.len()) as nat,
                        |i: int| LayerStats::empty(start),
                    ),
                decreases layer + 1 - self.layer_stats.len(),
            {
                self.layer_stats.push(LayerStats::new(start));
            }
            assert(self.layer_stats@ =~= grown(before, layer as int, start));
            let mut stats: LayerStats = self.layer_stats[layer];
            stats.record_frame_size(len);
            self.layer_stats[layer] = stats;
        }
    }
}

/// The bytes of all layers.
pub open spec fn layer_total(layers: Seq<LayerStats>) -> int
    decreases layers.len(),
{
    if layers.len() == 0 {
        0
    } else {
        layer_total(layers.drop_last()) + layers.last().total
    }
}

proof fn lemma_grown_total(layers: Seq<LayerStats>, n: nat, start: u64)
    ensures
        layer_total(layers + Seq::new(n, |i: int| LayerStats::empty(start))) == layer_total(layers),
    decreases n,
{
    let all = layers + Seq::new(n, |i: int| LayerStats::empty(start));
    if n == 0 {
        assert(all =~= layers);
    } else {
        lemma_grown_total(layers, (n - 1) as nat, start);
        assert(all.drop_last() =~= layers + Seq::new(
            (n - 1) as nat,
            |i: int| LayerStats::empty(start),
        ));
    }
}

proof fn lemma_updated_total(layers: Seq<LayerStats>, i: int, stats: LayerStats)
    requires
        0 <= i < layers.len(),
    ensures
        layer_total(layers.update(i, stats)) == layer_total(layers) - layers[i].total + stats.total,
    decreases layers.len(),
{
    let updated = layers.update(i, stats);
    if i == layers.len() - 1 {
        assert(updated.drop_last() =~= layers.drop_last());
    } else {
        lemma_updated_total(layers.drop_last(), i, stats);
        assert(updated.drop_last() =~= layers.drop_last().update(i, stats));
    }
}

/// Every frame is counted once as a keyframe or in a layer: these add up to
/// the totals, and go on doing so.
pub proof fn totals_add_up(
    before: EncodeStats,
    after: EncodeStats,
    is_keyframe: bool,
    layer: u32,
    len: usize,
)
    requires
        before.stream_stats.total == before.keyframe_stats.total + layer_total(
            before.layer_stats@,
        ),
        before.can_record(is_keyframe, layer, len),
        after.counts(before, is_keyframe, layer, len),
    ensures
        after.stream_stats.total == after.keyframe_stats.total + layer_total(after.layer_stats@),
{
    if !is_keyframe {
        let layers = grown(before.layer_stats@, layer as int, before.start);
        if layer >= before.layer_stats@.len() {
            lemma_grown_total(
                before.layer_stats@,
                (layer + 1 - before.layer_stats@.len()) as nat,
                before.start,
            );
        }
        lemma_updated_total(layers, layer as int, layers[layer as int].with_frame(len));
    }
}

/// A frame that is counted: whether it is a keyframe, its layer, and its size.
pub type Frame = (bool, u32, usize);

/// The bytes of all frames.
pub open spec fn frame_total(frames: Seq<Frame>) -> int
    decreases frames.len(),
{
    if frames.len() == 0 {
        0
    } else {
        frame_total(frames.drop_last()) + frames.last().2
    }
}

/// Statistics from the beginning on, with each frame that is counted.
pub open spec fn recording(trace: Seq<EncodeStats>, frames: Seq<Frame>) -> bool {
    &&& trace.len() == frames.len() + 1
    &&& trace[0].stream_stats == LayerStats::empty(trace[0].start)
    &&& trace[0].keyframe_stats == LayerStats::empty(trace[0].start)
    &&& trace[0].layer_stats@ == Seq::<LayerStats>::empty()
    &&& forall|i: int|
        #![trigger frames[i]]
        0 <= i < frames.len() ==> {
            let (is_keyframe, layer, len) = frames[i];
            &&& trace[i].can_record(is_keyframe, layer, len)
            &&& trace[i + 1].counts(trace[i], is_keyframe, layer, len)
        }
}

/// However many frames are counted, the total is the bytes of all of them, and
/// those of keyframes and of the layers add up to it.
pub proof fn recorded_totals_add_up(trace: Seq<EncodeStats>, frames: Seq<Frame>)
    requires
        recording(trace, frames),
    ensures
        ({
            let stats = trace.last();
            &&& stats.stream_stats.total == frame_total(frames)
            &&& stats.stream_stats.total == stats.keyframe_stats.total + layer_total(
                stats.layer_stats@,
            )
        }),
    decreases frames.len(),
{
    if frames.len() > 0 {
        let n = frames.len() - 1;
        let earlier = trace.drop_last();
        let init = frames.drop_last();
        lemma_recording_prefix(trace, frames);
        recorded_totals_add_up(earlier, init);
        let (is_keyframe, layer, len) = frames[n];
        totals_add_up(trace[n], trace[n + 1], is_keyframe, layer, len);
    }
}

/// The statistics of frames of these sizes, from the beginning on.
pub open spec fn recorded(start: u64, sizes: Seq<usize>) -> LayerStats
    decreases sizes.len(),
{
    if sizes.len() == 0 {
        LayerStats::empty(start)
    } else {
        recorded(start, sizes.drop_last()).with_frame(sizes.last())
    }
}

/// The bytes of frames of these sizes.
pub open spec fn size_total(sizes: Seq<usize>) -> int
    decreases sizes.len(),
{
    if sizes.len() == 0 {
        0
    } else {
        size_total(sizes.drop_last()) + sizes.last()
    }
}

proof fn lemma_size_total_prefix(sizes: Seq<usize>)
    requires
        sizes.len() > 0,
    ensures
        0 <= size_total(sizes.drop_last()) <= size_total(sizes),
    decreases sizes.len(),
{
    if sizes.len() > 1 {
        lemma_size_total_prefix(sizes.drop_last());
    }
}

/// The statistics of some frames hold the smallest and the largest size, and
/// the total. An empty frame counts for the smallest size only until the next
/// frame.
pub proof fn extremes_are_those_of_all_sizes(start: u64, sizes: Seq<usize>)
    requires
        sizes.len() > 0,
        size_total(sizes) <= u64::MAX,
    ensures
        ({
            let stats = recorded(start, sizes);
            &&& stats.total == size_total(sizes)
            &&& sizes.contains(stats.max)
            &&& forall|i: int| 0 <= i < sizes.len() ==> #[trigger] sizes[i] <= stats.max
            &&& sizes.contains(stats.min)
            &&& !sizes.contains(0) || sizes.last() == 0 ==> forall|i: int|
                0 <= i < sizes.len() ==> stats.min <= #[trigger] sizes[i]
        }),
    decreases sizes.len(),
{
    let init = sizes.drop_last();
    let last = sizes.last();
    let n = sizes.len() - 1;
    assert(sizes[n] == last);
    lemma_size_total_prefix(sizes);
    if n == 0 {
        assert(init =~= Seq::empty());
    } else {
        extremes_are_those_of_all_sizes(start, init);
        let before = recorded(start, init);
        let after = recorded(start, sizes);
        let a = init.index_of(before.max);
        let b = init.index_of(before.min);
        assert(sizes[a] == before.max && sizes[b] == before.min);
        assert forall|i: int| 0 <= i < sizes.len() implies #[trigger] sizes[i] <= after.max by {
            if i < n {
                assert(init[i] == sizes[i]);
            }
        }
        if !sizes.contains(0) {
            assert(!init.contains(0)) by {
                if init.contains(0) {
                    let i = init.index_of(0);
                    assert(sizes[i] == 0);
                }
            }
            assert forall|i: int| 0 <= i < sizes.len() implies after.min <= #[trigger] sizes[i] by {
                if i < n {
                    assert(init[i] == sizes[i]);
                }
            }
        }
    }
}

/// The frames that are counted in a layer.
pub open spec fn in_layer(layer: int) -> spec_fn(Frame) -> bool {
    |frame: Frame| !frame.0 && frame.1 == layer
}

/// The sizes of those frames of which something holds.
pub open spec fn sizes_of(frames: Seq<Frame>, chosen: spec_fn(Frame) -> bool) -> Seq<usize>
    decreases frames.len(),
{
    if frames.len() == 0 {
        Seq::empty()
    } else {
        let earlier = sizes_of(frames.drop_last(), chosen);
        if chosen(frames.last()) {
            earlier.push(frames.last().2)
        } else {
            earlier
        }
    }
}

/// However many frames are counted, each part of the statistics is that of the
/// frames which belong to it: of all, of the keyframes, or of those in a layer.
pub proof fn parts_record_their_frames(trace: Seq<EncodeStats>, frames: Seq<Frame>, layer: int)
    requires
        recording(trace, frames),
        layer >= 0,
    ensures
        ({
            let stats = trace.last();
            let start = trace[0].start;
            &&& stats.start == start
            &&& stats.stream_stats == recorded(start, sizes_of(frames, |frame: Frame| true))
            &&& stats.keyframe_stats == recorded(start, sizes_of(frames, |frame: Frame| frame.0))
            &&& layer < stats.layer_stats@.len() ==> stats.layer_stats@[layer] == recorded(
                start,
                sizes_of(frames, in_layer(layer)),
            )
            &&& layer >= stats.layer_stats@.len() ==> sizes_of(frames, in_layer(layer)) == Seq::<
                usize,
            >::empty()
        }),
    decreases frames.len(),
{
    if frames.len() > 0 {
        let n = frames.len() - 1;
        let earlier = trace.drop_last();
        let init = frames.drop_last();
        lemma_recording_prefix(trace, frames);
        parts_record_their_frames(earlier, init, layer);
        let start = trace[0].start;
        let frame = frames[n];
        assert(frame == frames.last());
        lemma_recorded_push(start, sizes_of(init, |frame: Frame| true), frame.2);
        lemma_recorded_push(start, sizes_of(init, |frame: Frame| frame.0), frame.2);
        lemma_recorded_push(start, sizes_of(init, in_layer(layer)), frame.2);
        assert(earlier.last() == trace[n]);
        assert(trace.last() == trace[n + 1]);
        assert(trace[n + 1].counts(trace[n], frame.0, frame.1, frame.2));
    }
}

proof fn lemma_recorded_push(start: u64, sizes: Seq<usize>, len: usize)
    ensures
        recorded(start, sizes.push(len)) == recorded(start, sizes).with_frame(len),
{
    assert(sizes.push(len).drop_last() =~= sizes);
}

proof fn lemma_recording_prefix(trace: Seq<EncodeStats>, frames: Seq<Frame>)
    requires
        recording(trace, frames),
        frames.len() > 0,
    ensures
        recording(trace.drop_last(), frames.drop_last()),
{
    let earlier = trace.drop_last();
    let init = frames.drop_last();
    assert forall|i: int| #![trigger init[i]] 0 <= i < init.len() implies {
        let (is_keyframe, layer, len) = init[i];
        &&& earlier[i].can_record(is_keyframe, layer, len)
        &&& earlier[i + 1].counts(earlier[i], is_keyframe, layer, len)
    } by {
        assert(init[i] == frames[i]);
    }
}

/// A keyframe leaves the layers alone, and any other frame the statistics of
/// keyframes. There are as many layers as the highest that had a frame needs.
pub proof fn one_part_grows(
    before: EncodeStats,
    after: EncodeStats,
    is_keyframe: bool,
    layer: u32,
    len: usize,
)
    requires
        after.counts(before, is_keyframe, layer, len),
    ensures
        is_keyframe ==> after.layer_stats@ == before.layer_stats@,
        !is_keyframe ==> after.keyframe_stats == before.keyframe_stats,
        !is_keyframe ==> after.layer_stats@.len() == (if before.layer_stats@.len() > layer {
            before.layer_stats@.len() as int
        } else {
            layer + 1
        }),
        !is_keyframe ==> forall|i: int|
            0 <= i < before.layer_stats@.len() && i != layer ==> #[trigger] after.layer_stats@[i]
                == before.layer_stats@[i],
{
}

/// The extremes enclose the size that was just counted, and stay in order.
pub proof fn recorded_size_is_enclosed(stats: LayerStats, len: usize)
    ensures
        stats.with_frame(len).min <= len <= stats.with_frame(len).max,
        stats.min <= stats.max ==> stats.with_frame(len).min <= stats.with_frame(len).max,
{
}

} // verus!
