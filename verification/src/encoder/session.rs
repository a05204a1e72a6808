//! Setting up an encode session, and what is recorded for each frame.

use vstd::prelude::*;
use crate::codec::{VideoCodec, VideoProfile};
use crate::encoder::stats::EncodeStats;
use crate::math::next_multiple_of;
use crate::vulkan::{select_memory_type, MAX_MEMORY_TYPES, MEMORY_DEVICE_LOCAL};

verus! {

/// Most temporal layers that are ever used.
pub const MAX_LAYERS: u32 = 4;

/// The number of frames between keyframes.
pub const DEFAULT_GOP_SIZE: u32 = 256;

/// Vulkan's flag for decoded pictures that may live in images of their own.
pub const SEPARATE_REFERENCE_IMAGES: u32 = 2;

#[derive(Debug, Clone, Copy, PartialEq, Eq, Structural)]
pub enum EncoderError {
    UnsupportedCodec,
    NoVideoSupport,
    ResolutionTooLarge { max_width: u32, max_height: u32 },
    NoInputFormat,
    TooFewDpbSlots,
    LevelTooLow,
    NoHeaders,
    SessionParametersMissing,
    CopyThreadDied,
    MissingReference(u32),
    EncodeFailed { status: i32 },
    NoMemoryType,
}

/// The encoders that exist.
#[derive(Debug, Clone, Copy, PartialEq, Eq, Structural)]
pub enum EncoderKind {
    H264,
    H265,
}

/// The encoder for a codec, if there is one.
pub fn encoder_for(codec: VideoCodec) -> (kind: Result<EncoderKind, EncoderError>)
    ensures
        kind == match codec {
            VideoCodec::H264 => Ok::<EncoderKind, EncoderError>(EncoderKind::H264),
            VideoCodec::H265 => Ok(EncoderKind::H265),
            VideoCodec::Av1 => Err(EncoderError::UnsupportedCodec),
        },
{
    match codec {
        VideoCodec::H264 => Ok(EncoderKind::H264),
        VideoCodec::H265 => Ok(EncoderKind::H265),
        VideoCodec::Av1 => Err(EncoderError::UnsupportedCodec),
    }
}

/// The shape of a stream: how many temporal layers it has, and how many frames
/// there are between keyframes.
#[derive(Debug, Clone, Copy, PartialEq, Eq, Structural)]
pub struct GopStructure {
    pub layers: u32,
    pub gop_size: u32,
}

/// The number of layers that a codec could use at best. Temporal layers are
/// not used with H.264.
pub open spec fn layer_limit(codec: VideoCodec, max_codec_layers: u32) -> u32 {
    if codec == VideoCodec::H264 {
        1
    } else if max_codec_layers < MAX_LAYERS {
        max_codec_layers
    } else {
        MAX_LAYERS
    }
}

/// The largest number of layers whose reference pictures fit into the decoded
/// picture buffer; none, if not even one layer fits.
pub open spec fn is_structure_for(
    codec: VideoCodec,
    max_codec_layers: u32,
    max_dpb_slots: u32,
    required_dpb_size: Seq<u32>,
    result: Result<GopStructure, EncoderError>,
) -> bool {
    match result {
        Ok(structure) => {
            &&& structure.gop_size == DEFAULT_GOP_SIZE
            &&& structure.layers <= layer_limit(codec, max_codec_layers)
            &&& structure.layers == 0 ==> layer_limit(codec, max_codec_layers) == 0
            &&& required_dpb_size[structure.layers as int] <= max_dpb_slots
            &&& forall|k: int|
                structure.layers < k <= layer_limit(codec, max_codec_layers)
                    ==> #[trigger] required_dpb_size[k] > max_dpb_slots
        },
        Err(err) => {
            &&& err == EncoderError::TooFewDpbSlots
            &&& layer_limit(codec, max_codec_layers) > 0
            &&& forall|k: int|
                0 < k <= layer_limit(codec, max_codec_layers)
                    ==> #[trigger] required_dpb_size[k] > max_dpb_slots
        },
    }
}

/// Picks the largest number of layers whose reference pictures fit into the
/// decoded picture buffer. `required_dpb_size` gives, for each number of
/// layers, how many slots are needed.
pub fn default_structure(
    codec: VideoCodec,
    max_codec_layers: u32,
    max_dpb_slots: u32,
    required_dpb_size: &Vec<u32>,
) -> (result: Result<GopStructure, EncoderError>)
    requires
        required_dpb_size.len() > MAX_LAYERS,
        layer_limit(codec, max_codec_layers) == 0 ==> required_dpb_size@[0] <= max_dpb_slots,
    ensures
        is_structure_for(codec, max_codec_layers, max_dpb_slots, required_dpb_size@, result),
{
    let limit: u32 = match codec {
        VideoCodec::H264 => 1,
        _ => if max_codec_layers < MAX_LAYERS {
            max_codec_layers
        } else {
            MAX_LAYERS
        },
    };
    let mut layers: u32 = limit;
    while required_dpb_size[layers as usize] > max_dpb_slots
        invariant
            limit == layer_limit(codec, max_codec_layers),
            limit <= MAX_LAYERS,
            layers <= limit,
            layers == 0 ==> limit == 0,
            limit == 0 ==> required_dpb_size@[0] <= max_dpb_slots,
            required_dpb_size.len() > MAX_LAYERS,
            forall|k: int| layers < k <= limit ==> #[trigger] required_dpb_size@[k] > max_dpb_slots,
        decreases layers,
    {
        layers = layers - 1;
        if layers == 0 {
            return Err(EncoderError::TooFewDpbSlots);
        }
    }
    Ok(GopStructure { layers, gop_size: DEFAULT_GOP_SIZE })
}

/// What a driver can encode.
#[derive(Debug, Clone, Copy, PartialEq, Eq, Structural)]
pub struct VideoCapabilities {
    pub max_coded_width: u32,
    pub max_coded_height: u32,
    pub granularity_width: u32,
    pub granularity_height: u32,
    pub min_bitstream_buffer_size_alignment: u32,
    pub flags: u32,
}

/// How a session is set up.
#[derive(Debug, Clone, Copy, PartialEq, Eq, Structural)]
pub struct SessionPlan {
    pub input_format: i32,
    pub separate_dpb_images: bool,
    /// The extent of the decoded pictures.
    pub dpb_width: u32,
    pub dpb_height: u32,
    pub output_buffer_size: u32,
}

impl VideoCapabilities {
    /// The sizes that follow from a resolution can be represented.
    pub open spec fn sizes_fit(self, width: u32, height: u32) -> bool {
        &&& self.granularity_width != 0
        &&& self.granularity_height != 0
        &&& self.min_bitstream_buffer_size_alignment != 0
        &&& crate::math::next_multiple(width as int, self.granularity_width as int) <= u32::MAX
        &&& crate::math::next_multiple(height as int, self.granularity_height as int) <= u32::MAX
        &&& width * height * 3 <= u32::MAX
        &&& crate::math::next_multiple(
            width * height * 3,
            self.min_bitstream_buffer_size_alignment as int,
        ) <= u32::MAX
    }
}

/// The size of the buffer for an encoded frame: three bytes for each pixel,
/// rounded up to what the driver asks for.
pub fn output_buffer_size(width: u32, height: u32, alignment: u32) -> (size: u32)
    requires
        alignment != 0,
        width * height * 3 <= u32::MAX,
        crate::math::next_multiple(width * height * 3, alignment as int) <= u32::MAX,
    ensures
        size == crate::math::next_multiple(width * height * 3, alignment as int),
{
    let pixels: u64 = width as u64 * height as u64;
    let bytes: u32 = (pixels * 3) as u32;
    next_multiple_of(bytes, alignment)
}

/// Decides how to set up a session. `formats` lists the picture formats that
/// the driver takes, best first.
pub fn plan_session(
    has_encode_queue: bool,
    width: u32,
    height: u32,
    caps: VideoCapabilities,
    formats: &Vec<i32>,
) -> (result: Result<SessionPlan, EncoderError>)
    requires
        has_encode_queue && caps.max_coded_width >= width && caps.max_coded_height >= height
            && formats@.len() > 0 ==> caps.sizes_fit(width, height),
    ensures
        result == if !has_encode_queue {
            Err::<SessionPlan, EncoderError>(EncoderError::NoVideoSupport)
        } else if caps.max_coded_width < width || caps.max_coded_height < height {
            Err(
                EncoderError::ResolutionTooLarge {
                    max_width: caps.max_coded_width,
                    max_height: caps.max_coded_height,
                },
            )
        } else if formats@.len() == 0 {
            Err(EncoderError::NoInputFormat)
        } else {
            Ok(
                SessionPlan {
                    input_format: formats@[0],
                    separate_dpb_images: caps.flags & SEPARATE_REFERENCE_IMAGES
                        == SEPARATE_REFERENCE_IMAGES,
                    dpb_width: crate::math::next_multiple(
                        width as int,
                        caps.granularity_width as int,
                    ) as u32,
                    dpb_height: crate::math::next_multiple(
                        height as int,
                        caps.granularity_height as int,
                    ) as u32,
                    output_buffer_size: crate::math::next_multiple(
                        width * height * 3,
                        caps.min_bitstream_buffer_size_alignment as int,
                    ) as u32,
                },
            )
        },
{
    if !has_encode_queue {
        return Err(EncoderError::NoVideoSupport);
    }
    if caps.max_coded_width < width || caps.max_coded_height < height {
        return Err(
            EncoderError::ResolutionTooLarge {
                max_width: caps.max_coded_width,
                max_height: caps.max_coded_height,
            },
        );
    }
    if formats.len() == 0 {
        return Err(EncoderError::NoInputFormat);
    }
    Ok(
        SessionPlan {
            input_format: formats[0],
            separate_dpb_images: caps.flags & SEPARATE_REFERENCE_IMAGES
                == SEPARATE_REFERENCE_IMAGES,
            dpb_width: next_multiple_of(width, caps.granularity_width),
            dpb_height: next_multiple_of(height, caps.granularity_height),
            output_buffer_size: output_buffer_size(
                width,
                height,
                caps.min_bitstream_buffer_size_alignment,
            ),
        },
    )
}

/// The place of a frame in the stream.
pub struct GopFrame {
    pub stream_position: u64,
    pub gop_position: u32,
    /// The temporal layer, which also names the picture for later references.
    pub id: u32,
    pub ref_ids: Vec<u32>,
    pub is_keyframe: bool,
    /// How many later frames refer to this one.
    pub forward_ref_count: u32,
}

/// A slot of the decoded picture buffer.
#[derive(Debug, Clone, Copy, PartialEq, Eq, Structural)]
pub struct DpbPicture {
    pub index: u32,
    pub currently_active: bool,
}

/// How the decoded picture buffer changes with a frame.
#[derive(Debug, Clone, Copy, PartialEq, Eq, Structural)]
pub enum DpbUpdate {
    /// The slot holds the picture `id` from now on. A keyframe first clears
    /// all slots.
    Activate { clear: bool, slot: u32, id: u32 },
    Deactivate { slot: u32 },
}

/// An output buffer, as it travels between the encoder and the thread that
/// copies encoded frames out of it. Points are on the buffer's own timeline.
#[derive(Debug, Clone, Copy, PartialEq, Eq, Structural)]
pub struct OutputFrame {
    pub hierarchical_layer: u32,
    pub is_keyframe: bool,
    pub tp_encoded: u64,
    pub tp_copied: u64,
}

impl OutputFrame {
    pub fn new() -> (frame: OutputFrame)
        ensures
            frame == (OutputFrame {
                hierarchical_layer: 0,
                is_keyframe: false,
                tp_encoded: 0,
                tp_copied: 0,
            }),
    {
        OutputFrame { hierarchical_layer: 0, is_keyframe: false, tp_encoded: 0, tp_copied: 0 }
    }

    /// The copy of a frame is done after its encoding, and before the next
    /// frame is encoded.
    pub open spec fn wf(self) -> bool {
        self.tp_encoded <= self.tp_copied <= self.tp_encoded + 1
    }

    /// The buffer for the next frame.
    pub open spec fn for_frame(self, frame: GopFrame) -> OutputFrame {
        OutputFrame {
            hierarchical_layer: frame.id,
            is_keyframe: frame.is_keyframe,
            tp_encoded: (self.tp_encoded + 10) as u64,
            tp_copied: (self.tp_encoded + 11) as u64,
        }
    }
}

/// What is done for a frame, in the order given.
#[derive(Debug, Clone, Copy, PartialEq, Eq, Structural)]
pub enum EncodeCommand {
    BeginRecording,
    /// The input comes over from the queue family that drew it, into the
    /// layout of the encoder.
    AcquireInput { from: u32, to: u32 },
    /// The session begins, with the slots that are bound to it.
    BeginCoding,
    /// The session is reset, and its rate control set.
    Reset,
    BeginQuery,
    /// Waits until a slot can be read, or written.
    PrepareSlot { slot: u32, written: bool },
    Encode,
    EndQuery,
    EndCoding,
    /// The input goes back to the queue family that draws it.
    ReleaseInput { from: u32, to: u32 },
    /// Waits until the last frame was copied out of the output buffer.
    WaitCopied { value: u64 },
    EndRecording,
    /// Hands the recording to the queue: it waits until the input is drawn,
    /// moves the timeline of the output buffer, and lets the input be drawn
    /// again.
    Submit { wait: u64, encoded: u64, release: u64 },
    /// The headers of the stream are written before the frame.
    WriteHeaders,
    /// The output buffer goes to the thread that copies the frame out of it.
    HandOver,
}

/// What is recorded for a frame.
pub struct EncodePlan {
    pub commands: Vec<EncodeCommand>,
    /// The slots that are bound to the session: that of the new picture, or -1
    /// while it holds none, and those of its references.
    pub bound_slots: Vec<i32>,
    /// Whether the rate control that is in force is announced. There is none
    /// before the first frame.
    pub announce_rate_control: bool,
    pub setup_slot: u32,
    pub reference_slots: Vec<u32>,
    pub dpb_update: DpbUpdate,
    pub frame: OutputFrame,
}

/// What the input of a frame is, and who draws and encodes it.
#[derive(Debug, Clone, Copy, PartialEq, Eq, Structural)]
pub struct EncodeInput {
    pub graphics_family: u32,
    pub encode_family: u32,
    /// The point at which the input is drawn.
    pub acquire: u64,
    /// The point from which on the input can be drawn again.
    pub release: u64,
    /// The stream begins with headers before this frame.
    pub has_headers: bool,
}

/// The references are read.
pub open spec fn read_slots(refs: Seq<Option<DpbPicture>>) -> Seq<EncodeCommand> {
    refs.map_values(
        |r: Option<DpbPicture>| EncodeCommand::PrepareSlot { slot: r->0.index, written: false },
    )
}

/// What is done for a frame.
pub open spec fn encode_commands(
    input: EncodeInput,
    output: OutputFrame,
    setup: DpbPicture,
    refs: Seq<Option<DpbPicture>>,
    frame: GopFrame,
) -> Seq<EncodeCommand> {
    seq![
        EncodeCommand::BeginRecording,
        EncodeCommand::AcquireInput { from: input.graphics_family, to: input.encode_family },
        EncodeCommand::BeginCoding,
    ] + (if frame.is_keyframe {
        seq![EncodeCommand::Reset]
    } else {
        Seq::empty()
    }) + seq![EncodeCommand::BeginQuery] + read_slots(refs) + seq![
        EncodeCommand::PrepareSlot { slot: setup.index, written: true },
        EncodeCommand::Encode,
        EncodeCommand::EndQuery,
        EncodeCommand::EndCoding,
        EncodeCommand::ReleaseInput { from: input.encode_family, to: input.graphics_family },
        EncodeCommand::WaitCopied { value: output.tp_copied },
        EncodeCommand::EndRecording,
        EncodeCommand::Submit {
            wait: input.acquire,
            encoded: output.for_frame(frame).tp_encoded,
            release: input.release,
        },
    ] + (if input.has_headers {
        seq![EncodeCommand::WriteHeaders]
    } else {
        Seq::empty()
    }) + seq![EncodeCommand::HandOver]
}

/// The slots of the reference pictures.
pub open spec fn slots_of(refs: Seq<Option<DpbPicture>>) -> Seq<u32> {
    refs.map_values(|r: Option<DpbPicture>| r->0.index)
}

/// The slots that are bound for a frame.
pub open spec fn bound_slots(setup: DpbPicture, refs: Seq<Option<DpbPicture>>) -> Seq<i32> {
    seq![if setup.currently_active { setup.index as i32 } else { -1i32 }] + refs.map_values(
        |r: Option<DpbPicture>| r->0.index as i32,
    )
}

pub open spec fn dpb_update(setup: DpbPicture, frame: GopFrame) -> DpbUpdate {
    if frame.forward_ref_count > 0 {
        DpbUpdate::Activate { clear: frame.is_keyframe, slot: setup.index, id: frame.id }
    } else {
        DpbUpdate::Deactivate { slot: setup.index }
    }
}

/// The first reference that is not in the decoded picture buffer.
pub open spec fn first_missing(refs: Seq<Option<DpbPicture>>, i: int) -> bool {
    &&& 0 <= i < refs.len()
    &&& refs[i] is None
    &&& forall|j: int| 0 <= j < i ==> #[trigger] refs[j] is Some
}

/// Decides what is done for a frame. `output` is a free output buffer, or
/// nothing if the thread that returns them is gone; `setup` is the slot for
/// the new picture; `refs` gives, for each reference, its slot.
pub fn submit_encode(
    session_params_created: bool,
    input: EncodeInput,
    output: Option<OutputFrame>,
    setup: DpbPicture,
    refs: &Vec<Option<DpbPicture>>,
    frame: &GopFrame,
) -> (result: Result<EncodePlan, EncoderError>)
    requires
        refs@.len() == frame.ref_ids@.len(),
        forall|i: int|
            0 <= i < refs@.len() && (#[trigger] refs@[i]) is Some ==> refs@[i]->0.currently_active,
        output is Some ==> output->0.tp_encoded <= u64::MAX - 11,
    ensures
        !session_params_created ==> result == Err::<EncodePlan, EncoderError>(
            EncoderError::SessionParametersMissing,
        ),
        session_params_created && output is None ==> result == Err::<EncodePlan, EncoderError>(
            EncoderError::CopyThreadDied,
        ),
        session_params_created && output is Some ==> match result {
            Ok(plan) => {
                &&& forall|i: int| 0 <= i < refs@.len() ==> #[trigger] refs@[i] is Some
                &&& plan.commands@ == encode_commands(input, output->0, setup, refs@, *frame)
                &&& plan.bound_slots@ == bound_slots(setup, refs@)
                &&& plan.announce_rate_control == (frame.stream_position != 0)
                &&& plan.setup_slot == setup.index
                &&& plan.reference_slots@ == slots_of(refs@)
                &&& plan.dpb_update == dpb_update(setup, *frame)
                &&& plan.frame == output->0.for_frame(*frame)
            },
            Err(err) => exists|i: int| #[trigger]
                first_missing(refs@, i) && err == EncoderError::MissingReference(
                    frame.ref_ids@[i],
                ),
        },
{
    if !session_params_created {
        return Err(EncoderError::SessionParametersMissing);
    }
    let mut buffer: OutputFrame = match output {
        Some(buffer) => buffer,
        None => {
            return Err(EncoderError::CopyThreadDied);
        },
    };
    let mut commands: Vec<EncodeCommand> = Vec::new();
    commands.push(EncodeCommand::BeginRecording);
    commands.push(
        EncodeCommand::AcquireInput { from: input.graphics_family, to: input.encode_family },
    );
    commands.push(EncodeCommand::BeginCoding);
    if frame.is_keyframe {
        commands.push(EncodeCommand::Reset);
    }
    commands.push(EncodeCommand::BeginQuery);
    let ghost opening = commands@;
    let mut bound: Vec<i32> = Vec::new();
    bound.push(
        if setup.currently_active {
            setup.index as i32
        } else {
            -1
        },
    );
    let mut slots: Vec<u32> = Vec::new();
    let mut i: usize = 0;
    while i < refs.len()
        invariant
            i <= refs@.len(),
            refs@.len() == frame.ref_ids@.len(),
            session_params_created,
            output is Some,
            forall|j: int| 0 <= j < i ==> #[trigger] refs@[j] is Some,
            commands@ =~= opening + read_slots(refs@.take(i as int)),
            bound@ =~= bound_slots(setup, refs@.take(i as int)),
            slots@ =~= slots_of(refs@.take(i as int)),
        decreases refs.len() - i,
    {
        match refs[i] {
            Some(picture) => {
                commands.push(EncodeCommand::PrepareSlot { slot: picture.index, written: false });
                bound.push(picture.index as i32);
                slots.push(picture.index);
            },
            None => {
                assert(first_missing(refs@, i as int));
                return Err(EncoderError::MissingReference(frame.ref_ids[i]));
            },
        }
        i += 1;
    }
    assert(refs@.take(i as int) =~= refs@);
    let dpb_update: DpbUpdate = if frame.forward_ref_count > 0 {
        DpbUpdate::Activate { clear: frame.is_keyframe, slot: setup.index, id: frame.id }
    } else {
        DpbUpdate::Deactivate { slot: setup.index }
    };
    commands.push(EncodeCommand::PrepareSlot { slot: setup.index, written: true });
    commands.push(EncodeCommand::Encode);
    commands.push(EncodeCommand::EndQuery);
    commands.push(EncodeCommand::EndCoding);
    commands.push(
        EncodeCommand::ReleaseInput { from: input.encode_family, to: input.graphics_family },
    );
    commands.push(EncodeCommand::WaitCopied { value: buffer.tp_copied });
    buffer.tp_encoded = buffer.tp_encoded + 10;
    buffer.tp_copied = buffer.tp_encoded + 1;
    buffer.hierarchical_layer = frame.id;
    buffer.is_keyframe = frame.is_keyframe;
    commands.push(EncodeCommand::EndRecording);
    commands.push(
        EncodeCommand::Submit {
            wait: input.acquire,
            encoded: buffer.tp_encoded,
            release: input.release,
        },
    );
    if input.has_headers {
        commands.push(EncodeCommand::WriteHeaders);
    }
    commands.push(EncodeCommand::HandOver);
    assert(commands@ =~= encode_commands(input, output->0, setup, refs@, *frame));
    Ok(
        EncodePlan {
            commands,
            bound_slots: bound,
            announce_rate_control: frame.stream_position != 0,
            setup_slot: setup.index,
            reference_slots: slots,
            dpb_update,
            frame: buffer,
        },
    )
}

/// Headers are written right before the frame that they belong to.
pub proof fn headers_precede_frame(
    input: EncodeInput,
    output: OutputFrame,
    setup: DpbPicture,
    refs: Seq<Option<DpbPicture>>,
    frame: GopFrame,
)
    ensures
        ({
            let commands = encode_commands(input, output, setup, refs, frame);
            &&& commands.last() == EncodeCommand::HandOver
            &&& input.has_headers <==> commands[commands.len() - 2] == EncodeCommand::WriteHeaders
        }),
{
}

/// The input is drawn before it is encoded, and goes back where it came from.
pub proof fn input_goes_back(
    input: EncodeInput,
    output: OutputFrame,
    setup: DpbPicture,
    refs: Seq<Option<DpbPicture>>,
    frame: GopFrame,
)
    ensures
        ({
            let commands = encode_commands(input, output, setup, refs, frame);
            exists|i: int, j: int|
                #![trigger commands[i], commands[j]]
                1 < i < j < commands.len() && commands[1] == (EncodeCommand::AcquireInput {
                    from: input.graphics_family,
                    to: input.encode_family,
                }) && commands[i] == EncodeCommand::Encode && commands[j] == (
                EncodeCommand::ReleaseInput {
                    from: input.encode_family,
                    to: input.graphics_family,
                })
        }),
{
    let commands = encode_commands(input, output, setup, refs, frame);
    let resets: int = if frame.is_keyframe {
        1
    } else {
        0
    };
    let i = 5 + resets + refs.len();
    assert(commands[i] == EncodeCommand::Encode);
    assert(commands[i + 3] == EncodeCommand::ReleaseInput {
        from: input.encode_family,
        to: input.graphics_family,
    });
}

/// Every frame is encoded after the copy of the one before it, and its own
/// copy comes after that: the points on the timeline only grow.
pub proof fn timeline_points_grow(output: OutputFrame, frame: GopFrame)
    requires
        output.wf(),
        output.tp_encoded <= u64::MAX - 11,
    ensures
        output.for_frame(frame).wf(),
        output.tp_copied < output.for_frame(frame).tp_encoded,
        output.for_frame(frame).tp_encoded < output.for_frame(frame).tp_copied,
{
}

/// What the driver reports of an encoded frame.
#[derive(Debug, Clone, Copy, PartialEq, Eq, Structural)]
pub struct QueryResults {
    pub offset: i32,
    pub size: i32,
    pub result: i32,
}

/// The status of a query that completed.
pub const QUERY_STATUS_COMPLETE: i32 = 1;

/// The part of the output buffer that holds the encoded frame.
pub fn encoded_range(results: QueryResults) -> (range: Result<(usize, usize), EncoderError>)
    requires
        results.result == QUERY_STATUS_COMPLETE ==> results.offset >= 0 && results.size >= 0,
    ensures
        results.result != QUERY_STATUS_COMPLETE ==> range == Err::<(usize, usize), EncoderError>(
            EncoderError::EncodeFailed { status: results.result },
        ),
        results.result == QUERY_STATUS_COMPLETE ==> range == Ok::<(usize, usize), EncoderError>(
            (results.offset as usize, results.size as usize),
        ),
{
    if results.result != QUERY_STATUS_COMPLETE {
        Err(EncoderError::EncodeFailed { status: results.result })
    } else {
        Ok((results.offset as usize, results.size as usize))
    }
}

/// An encoded frame, as it lies in the output buffer.
#[derive(Debug, Clone, Copy, PartialEq, Eq, Structural)]
pub struct EncodedPacket {
    pub offset: usize,
    pub len: usize,
    pub hierarchical_layer: u32,
}

/// What lies in an output buffer, if the driver says that it encoded the frame.
pub open spec fn encoded_packet(frame: OutputFrame, results: QueryResults) -> Result<
    EncodedPacket,
    EncoderError,
> {
    if results.result != QUERY_STATUS_COMPLETE {
        Err(EncoderError::EncodeFailed { status: results.result })
    } else {
        Ok(
            EncodedPacket {
                offset: results.offset as usize,
                len: results.size as usize,
                hierarchical_layer: frame.hierarchical_layer,
            },
        )
    }
}

/// Takes an encoded frame out of its output buffer, and counts it.
pub fn finish_frame(frame: &OutputFrame, results: QueryResults, stats: &mut EncodeStats) -> (packet:
    Result<EncodedPacket, EncoderError>)
    requires
        results.result == QUERY_STATUS_COMPLETE ==> results.offset >= 0 && results.size >= 0
            && old(stats).can_record(
            frame.is_keyframe,
            frame.hierarchical_layer,
            results.size as usize,
        ),
    ensures
        packet == encoded_packet(*frame, results),
        results.result != QUERY_STATUS_COMPLETE ==> *final(stats) == *old(stats),
        results.result == QUERY_STATUS_COMPLETE ==> final(stats).counts(
            *old(stats),
            frame.is_keyframe,
            frame.hierarchical_layer,
            results.size as usize,
        ),
{
    let (offset, len): (usize, usize) = match encoded_range(results) {
        Ok(range) => range,
        Err(err) => {
            return Err(err);
        },
    };
    stats.record_frame_size(frame.is_keyframe, frame.hierarchical_layer, len);
    Ok(EncodedPacket { offset, len, hierarchical_layer: frame.hierarchical_layer })
}

/// Memory that a session needs.
#[derive(Debug, Clone, Copy, PartialEq, Eq, Structural)]
pub struct MemoryRequirement {
    pub bind_index: u32,
    pub size: u64,
    /// A bit for each type of memory that is allowed.
    pub memory_type_bits: u32,
}

/// Memory that a session gets.
#[derive(Debug, Clone, Copy, PartialEq, Eq, Structural)]
pub struct MemoryBind {
    pub bind_index: u32,
    pub size: u64,
    pub memory_type: u32,
}

/// The first type of memory that is allowed and has some flags.
pub open spec fn is_first_type(types: Seq<u32>, flags: u32, bits: u32, i: int) -> bool {
    &&& 0 <= i < types.len()
    &&& crate::vulkan::memory_fits(types, flags, Some(bits), i)
    &&& forall|j: int|
        0 <= j < i ==> !#[trigger] crate::vulkan::memory_fits(types, flags, Some(bits), j)
}

/// Some type of memory is allowed and has some flags.
pub open spec fn has_type(types: Seq<u32>, flags: u32, bits: u32) -> bool {
    exists|i: int|
        0 <= i < types.len() && #[trigger] crate::vulkan::memory_fits(types, flags, Some(bits), i)
}

/// Memory on the device is best, but any that is allowed will do.
pub open spec fn is_memory_for(types: Seq<u32>, bits: u32, i: int) -> bool {
    if has_type(types, MEMORY_DEVICE_LOCAL, bits) {
        is_first_type(types, MEMORY_DEVICE_LOCAL, bits, i)
    } else {
        is_first_type(types, 0, bits, i)
    }
}

/// Each requirement is met by memory of its size, in order.
pub open spec fn binds_memory(
    types: Seq<u32>,
    requirements: Seq<MemoryRequirement>,
    binds: Seq<MemoryBind>,
) -> bool {
    &&& binds.len() == requirements.len()
    &&& forall|i: int|
        0 <= i < binds.len() ==> (#[trigger] binds[i]).bind_index == requirements[i].bind_index
            && binds[i].size == requirements[i].size && is_memory_for(
            types,
            requirements[i].memory_type_bits,
            binds[i].memory_type as int,
        )
}

/// Chooses the memory of a session.
pub fn bind_session_memory(types: &Vec<u32>, requirements: &Vec<MemoryRequirement>) -> (result:
    Result<Vec<MemoryBind>, EncoderError>)
    requires
        types@.len() <= MAX_MEMORY_TYPES,
    ensures
        match result {
            Ok(binds) => binds_memory(types@, requirements@, binds@),
            Err(err) => err == EncoderError::NoMemoryType && exists|i: int|
                0 <= i < requirements@.len() && !has_type(
                    types@,
                    0,
                    (#[trigger] requirements@[i]).memory_type_bits,
                ),
        },
{
    let mut binds: Vec<MemoryBind> = Vec::new();
    let mut i: usize = 0;
    while i < requirements.len()
        invariant
            i <= requirements@.len(),
            binds@.len() == i,
            types@.len() <= MAX_MEMORY_TYPES,
            forall|j: int|
                0 <= j < i ==> (#[trigger] binds@[j]).bind_index == requirements@[j].bind_index
                    && binds@[j].size == requirements@[j].size && is_memory_for(
                    types@,
                    requirements@[j].memory_type_bits,
                    binds@[j].memory_type as int,
                ),
        decreases requirements.len() - i,
    {
        let req: MemoryRequirement = requirements[i];
        let bits: u32 = req.memory_type_bits;
        let memory_type: u32 = match select_memory_type(types, MEMORY_DEVICE_LOCAL, Some(bits)) {
            Some(index) => index,
            None => match select_memory_type(types, 0, Some(bits)) {
                Some(index) => index,
                None => {
                    assert(!has_type(types@, 0, requirements@[i as int].memory_type_bits));
                    return Err(EncoderError::NoMemoryType);
                },
            },
        };
        assert(is_memory_for(types@, bits, memory_type as int));
        binds.push(MemoryBind { bind_index: req.bind_index, size: req.size, memory_type });
        i += 1;
    }
    Ok(binds)
}

/// The bits of each component in a video profile.
pub fn component_bit_depth(profile: VideoProfile) -> (bits: u32)
    ensures
        bits == match profile {
            VideoProfile::Hd => 8u32,
            VideoProfile::Hdr10 => 10,
        },
{
    match profile {
        VideoProfile::Hd => 8,
        VideoProfile::Hdr10 => 10,
    }
}

/// A session has room for its pictures: decoded pictures have the least size
/// that the driver can work with, and an encoded frame has three bytes for each
/// pixel, and as many more as the driver asks for.
pub proof fn planned_session_has_room(
    has_encode_queue: bool,
    width: u32,
    height: u32,
    caps: VideoCapabilities,
    formats: &Vec<i32>,
    result: Result<SessionPlan, EncoderError>,
)
    requires
        call_ensures(plan_session, (has_encode_queue, width, height, caps, formats), result),
        caps.sizes_fit(width, height),
    ensures
        result is Ok <==> has_encode_queue && width <= caps.max_coded_width && height
            <= caps.max_coded_height && formats@.len() > 0,
        !has_encode_queue ==> result == Err::<SessionPlan, EncoderError>(
            EncoderError::NoVideoSupport,
        ),
        result matches Err(EncoderError::ResolutionTooLarge { max_width, max_height }) ==> (width
            > max_width || height > max_height) && max_width == caps.max_coded_width && max_height
            == caps.max_coded_height,
        result matches Err(EncoderError::NoInputFormat) ==> formats@.len() == 0,
        result matches Ok(plan) ==> {
            &&& plan.input_format == formats@[0]
            &&& plan.dpb_width as int % caps.granularity_width as int == 0
            &&& plan.dpb_height as int % caps.granularity_height as int == 0
            &&& width <= plan.dpb_width < width + caps.granularity_width
            &&& height <= plan.dpb_height < height + caps.granularity_height
            &&& plan.output_buffer_size as int % caps.min_bitstream_buffer_size_alignment as int
                == 0
            &&& 3 * width * height <= plan.output_buffer_size < 3 * width * height
                + caps.min_bitstream_buffer_size_alignment
            &&& plan.separate_dpb_images <==> caps.flags & 2 == 2
        },
{
    assert(width * height >= 0) by (nonlinear_arith)
        requires
            width >= 0,
            height >= 0,
    ;
    assert(3 * width * height == width * height * 3) by (nonlinear_arith);
    crate::math::lemma_next_multiple(width as int, caps.granularity_width as int);
    crate::math::lemma_next_multiple(height as int, caps.granularity_height as int);
    crate::math::lemma_next_multiple(
        width * height * 3,
        caps.min_bitstream_buffer_size_alignment as int,
    );
}

/// A stream has as many temporal layers as fit, but never more than four, and
/// with H.264 just one. Keyframes are 256 frames apart.
pub proof fn layers_are_limited(
    codec: VideoCodec,
    max_codec_layers: u32,
    max_dpb_slots: u32,
    required_dpb_size: Seq<u32>,
    result: Result<GopStructure, EncoderError>,
)
    requires
        is_structure_for(codec, max_codec_layers, max_dpb_slots, required_dpb_size, result),
        max_codec_layers > 0,
        required_dpb_size.len() > 4,
    ensures
        result matches Ok(structure) ==> {
            &&& 1 <= structure.layers <= 4
            &&& codec == VideoCodec::H264 ==> structure.layers == 1
            &&& codec != VideoCodec::H264 ==> structure.layers <= max_codec_layers
            &&& structure.gop_size == 256
            &&& required_dpb_size[structure.layers as int] <= max_dpb_slots
        },
        codec == VideoCodec::H264 ==> (result is Ok <==> required_dpb_size[1] <= max_dpb_slots),
        codec != VideoCodec::H264 && max_codec_layers >= 4 && required_dpb_size[4]
            <= max_dpb_slots ==> (result matches Ok(structure) && structure.layers == 4),
        codec != VideoCodec::H264 && required_dpb_size[1] <= max_dpb_slots ==> result is Ok,
{
}

/// Each codec has its own encoder, and only AV1 has none.
pub proof fn encoders_match_codecs(codec: VideoCodec, kind: Result<EncoderKind, EncoderError>)
    requires
        call_ensures(encoder_for, (codec,), kind),
    ensures
        kind == Ok::<EncoderKind, EncoderError>(EncoderKind::H264) <==> codec == VideoCodec::H264,
        kind == Ok::<EncoderKind, EncoderError>(EncoderKind::H265) <==> codec == VideoCodec::H265,
        kind == Err::<EncoderKind, EncoderError>(EncoderError::UnsupportedCodec) <==> codec
            == VideoCodec::Av1,
{
}

/// The session is reset for a keyframe, and only then, before anything is
/// encoded. Each reference is waited for before it is read, and the slot of the
/// new picture before it is written.
pub proof fn frame_is_recorded_in_order(
    input: EncodeInput,
    output: OutputFrame,
    setup: DpbPicture,
    refs: Seq<Option<DpbPicture>>,
    frame: GopFrame,
    i: int,
)
    requires
        0 <= i < refs.len(),
    ensures
        ({
            let commands = encode_commands(input, output, setup, refs, frame);
            let first = if frame.is_keyframe {
                5int
            } else {
                4
            };
            let at = first + refs.len() + 1;
            &&& commands[2] == EncodeCommand::BeginCoding
            &&& commands.contains(EncodeCommand::Reset) <==> frame.is_keyframe
            &&& frame.is_keyframe ==> commands[3] == EncodeCommand::Reset
            &&& commands[first - 1] == EncodeCommand::BeginQuery
            &&& commands[first + i] == (EncodeCommand::PrepareSlot {
                slot: refs[i]->0.index,
                written: false,
            })
            &&& commands[at - 1] == (EncodeCommand::PrepareSlot {
                slot: setup.index,
                written: true,
            })
            &&& commands[at] == EncodeCommand::Encode
            &&& forall|k: int|
                0 <= k < commands.len() && #[trigger] commands[k] == EncodeCommand::Encode ==> k
                    == at
        }),
{
    let commands = encode_commands(input, output, setup, refs, frame);
    if frame.is_keyframe {
        assert(commands[3] == EncodeCommand::Reset);
    }
}

/// A frame is handed over once it is drawn and the output buffer is free again;
/// when it is encoded, the timeline of its buffer moves on, and the input can be
/// drawn again.
pub proof fn frame_waits_for_input_and_output(
    input: EncodeInput,
    output: OutputFrame,
    setup: DpbPicture,
    refs: Seq<Option<DpbPicture>>,
    frame: GopFrame,
)
    requires
        output.wf(),
        output.tp_encoded <= u64::MAX - 11,
    ensures
        ({
            let commands = encode_commands(input, output, setup, refs, frame);
            let n = commands.len() as int - (if input.has_headers {
                2int
            } else {
                1
            });
            &&& commands[n - 1] matches EncodeCommand::Submit { wait, encoded, release } && wait
                == input.acquire && release == input.release && encoded > output.tp_copied
                && encoded == output.for_frame(frame).tp_encoded
            &&& commands[n - 2] == EncodeCommand::EndRecording
            &&& commands[n - 3] == (EncodeCommand::WaitCopied { value: output.tp_copied })
        }),
        output.for_frame(frame).hierarchical_layer == frame.id,
        output.for_frame(frame).is_keyframe == frame.is_keyframe,
{
}

/// A picture that later frames refer to is kept under its name; any other gives
/// its slot free. A keyframe makes all earlier pictures void.
pub proof fn referenced_picture_is_kept(
    setup: DpbPicture,
    frame: GopFrame,
    refs: Seq<Option<DpbPicture>>,
    i: int,
)
    ensures
        dpb_update(setup, frame) is Activate <==> frame.forward_ref_count > 0,
        dpb_update(setup, frame) matches DpbUpdate::Activate { clear, slot, id } ==> slot
            == setup.index && id == frame.id && clear == frame.is_keyframe,
        dpb_update(setup, frame) matches DpbUpdate::Deactivate { slot } ==> slot == setup.index,
        bound_slots(setup, refs).len() == refs.len() + 1,
        setup.currently_active ==> bound_slots(setup, refs)[0] == setup.index as i32,
        !setup.currently_active ==> bound_slots(setup, refs)[0] == -1,
        0 <= i < refs.len() ==> bound_slots(setup, refs)[i + 1] == refs[i]->0.index as i32,
        slots_of(refs).len() == refs.len(),
        0 <= i < refs.len() ==> slots_of(refs)[i] == refs[i]->0.index,
{
}

/// A frame lies where the driver put it, with the length and the layer that it
/// has; a frame that was not encoded is an error.
pub proof fn encoded_frame_is_found(frame: OutputFrame, results: QueryResults)
    requires
        results.offset >= 0,
        results.size >= 0,
    ensures
        encoded_packet(frame, results) is Ok <==> results.result == 1,
        encoded_packet(frame, results) matches Ok(packet) ==> packet.offset == results.offset
            && packet.len == results.size && packet.hierarchical_layer == frame.hierarchical_layer,
        encoded_packet(frame, results) matches Err(err) ==> err == (EncoderError::EncodeFailed {
            status: results.result,
        }),
{
}

/// Memory on the device is chosen whenever some is allowed; what is chosen is
/// always allowed.
pub proof fn chosen_memory_is_allowed(types: Seq<u32>, bits: u32, i: int, other: int)
    requires
        is_memory_for(types, bits, i),
    ensures
        0 <= i < types.len(),
        crate::vulkan::memory_fits(types, 0, Some(bits), i) || crate::vulkan::memory_fits(
            types,
            MEMORY_DEVICE_LOCAL,
            Some(bits),
            i,
        ),
        0 <= other < types.len() && crate::vulkan::memory_fits(
            types,
            MEMORY_DEVICE_LOCAL,
            Some(bits),
            other,
        ) ==> crate::vulkan::memory_fits(types, MEMORY_DEVICE_LOCAL, Some(bits), i) && i <= other,
{
}

/// The two profiles have components of eight and of ten bits.
pub proof fn profiles_have_depths(profile: VideoProfile, bits: u32)
    requires
        call_ensures(component_bit_depth, (profile,), bits),
    ensures
        bits == 10 <==> profile is Hdr10,
        bits == 8 <==> profile is Hd,
{
}

/// Memory can be chosen wherever some type of it is allowed.
pub proof fn allowed_memory_is_chosen(types: Seq<u32>, bits: u32, other: int)
    requires
        0 <= other < types.len(),
        crate::vulkan::memory_fits(types, 0, Some(bits), other),
    ensures
        exists|i: int| is_memory_for(types, bits, i),
{
    if has_type(types, MEMORY_DEVICE_LOCAL, bits) {
        let some = choose|i: int|
            0 <= i < types.len() && #[trigger] crate::vulkan::memory_fits(
                types,
                MEMORY_DEVICE_LOCAL,
                Some(bits),
                i,
            );
        let first = lemma_first_type(types, MEMORY_DEVICE_LOCAL, bits, some);
        assert(is_memory_for(types, bits, first));
    } else {
        let first = lemma_first_type(types, 0, bits, other);
        assert(is_memory_for(types, bits, first));
    }
}

/// Where some type fits, one is the first that does.
proof fn lemma_first_type(types: Seq<u32>, flags: u32, bits: u32, some: int) -> (first: int)
    requires
        0 <= some < types.len(),
        crate::vulkan::memory_fits(types, flags, Some(bits), some),
    ensures
        is_first_type(types, flags, bits, first),
        first <= some,
    decreases some,
{
    if is_first_type(types, flags, bits, some) {
        some
    } else {
        let earlier = choose|j: int|
            0 <= j < some && #[trigger] crate::vulkan::memory_fits(types, flags, Some(bits), j);
        lemma_first_type(types, flags, bits, earlier)
    }
}

/// What is bound has the index and the size of what is required, and a type that
/// the requirement allows.
pub proof fn bound_memory_is_as_required(
    types: Seq<u32>,
    requirements: Seq<MemoryRequirement>,
    binds: Seq<MemoryBind>,
    i: int,
)
    requires
        binds_memory(types, requirements, binds),
        0 <= i < requirements.len(),
    ensures
        binds.len() == requirements.len(),
        binds[i].bind_index == requirements[i].bind_index,
        binds[i].size == requirements[i].size,
        binds[i].memory_type < types.len(),
        requirements[i].memory_type_bits & (1u32 << binds[i].memory_type) != 0,
{
    assert(is_memory_for(
        types,
        requirements[i].memory_type_bits,
        binds[i].memory_type as int,
    ));
}

} // verus!
