//! H.264: the parameters of a stream, and those of each picture.

use vstd::prelude::*;
use bytes::Bytes;
use crate::bytes_ext::{bytes_clone, bytes_len};
use crate::codec::{VideoCodec, VideoProfile};
use crate::control::VideoStreamParams;
use crate::encoder::rate_control::{select_rc_mode, RateControlMode};
use crate::encoder::session::{default_structure, EncoderError, GopFrame, GopStructure};
use crate::math::{log2_ceil, next_multiple_of};

verus! {

/// Level 5.2.
pub const LEVEL_IDC: u32 = 15;

pub const PROFILE_IDC_HIGH: u32 = 100;

pub const PROFILE_IDC_HIGH_10: u32 = 110;

pub const SLICE_TYPE_P: u32 = 0;

pub const SLICE_TYPE_I: u32 = 2;

pub const PICTURE_TYPE_P: u32 = 0;

pub const PICTURE_TYPE_IDR: u32 = 5;

/// Vulkan's flags for the structure of a stream.
pub const RATE_CONTROL_REGULAR_GOP: u32 = 2;

pub const RATE_CONTROL_REFERENCE_PATTERN_FLAT: u32 = 4;

pub const RATE_CONTROL_TEMPORAL_LAYER_PATTERN_DYADIC: u32 = 16;

/// Vulkan's flags for the bit depth of a component.
pub const BIT_DEPTH_8: u32 = 1;

pub const BIT_DEPTH_10: u32 = 4;

/// The lowest QP of a driver that states none.
pub const DEFAULT_MIN_QP: u32 = 17;

/// The highest QP of a driver that states none.
pub const DEFAULT_MAX_QP: u32 = 50;

/// The number of entries of a reference list.
pub const REF_LIST_LEN: usize = 32;

/// The parameters of an H.264 sequence.
#[derive(Debug, Clone, Copy, PartialEq, Eq, Structural)]
pub struct SequenceParameters {
    pub profile_idc: u32,
    pub level_idc: u32,
    /// Vulkan's flag for the bit depth of luma and chroma.
    pub component_bit_depth: u32,
    pub bit_depth_minus8: u8,
    pub log2_max_frame_num_minus4: u8,
    pub log2_max_pic_order_cnt_lsb_minus4: u8,
    pub pic_width_in_mbs_minus1: u32,
    pub pic_height_in_map_units_minus1: u32,
    pub frame_crop_right_offset: u32,
    pub frame_crop_bottom_offset: u32,
    pub frame_cropping: bool,
    pub colour_primaries: u8,
    pub transfer_characteristics: u8,
    pub matrix_coefficients: u8,
}

/// Colour primaries, transfer characteristics and matrix coefficients.
pub open spec fn colour_description(profile: VideoProfile) -> (u8, u8, u8) {
    match profile {
        VideoProfile::Hd => (1, 1, 1),
        VideoProfile::Hdr10 => (9, 16, 9),
    }
}

/// A limit of the driver, where it states one that makes sense.
pub fn qp_limit(limit: i32, default: u32) -> (qp: u32)
    ensures
        qp == if limit < 0 { default as int } else { limit as int },
{
    if limit < 0 {
        default
    } else {
        limit as u32
    }
}

/// The number of layers that both the codec and rate control support.
pub fn supported_layers(max_temporal_layers: u32, max_rate_control_layers: u32) -> (layers: u32)
    ensures
        layers <= max_temporal_layers,
        layers <= max_rate_control_layers,
        layers == max_temporal_layers || layers == max_rate_control_layers,
{
    if max_temporal_layers < max_rate_control_layers {
        max_temporal_layers
    } else {
        max_rate_control_layers
    }
}

/// The exponent that is written for a counter that has to reach `gop_size`.
pub open spec fn counter_bits(gop_size: u32, written: u8) -> bool {
    exists|p: nat| #[trigger]
        crate::math::is_log2_ceil(gop_size as nat, p) && written == if p < 4 {
            0int
        } else {
            p - 4
        }
}

/// The parameters of the sequence that a stream is.
pub open spec fn describes_stream(
    sps: SequenceParameters,
    params: VideoStreamParams,
    structure: GopStructure,
    block: u32,
) -> bool {
    let width = crate::math::next_multiple(params.width as int, block as int);
    let height = crate::math::next_multiple(params.height as int, block as int);
    &&& sps.level_idc == LEVEL_IDC
    &&& sps.profile_idc == match params.profile {
        VideoProfile::Hd => PROFILE_IDC_HIGH,
        VideoProfile::Hdr10 => PROFILE_IDC_HIGH_10,
    }
    &&& sps.component_bit_depth == match params.profile {
        VideoProfile::Hd => BIT_DEPTH_8,
        VideoProfile::Hdr10 => BIT_DEPTH_10,
    }
    &&& sps.bit_depth_minus8 == match params.profile {
        VideoProfile::Hd => 0u8,
        VideoProfile::Hdr10 => 2u8,
    }
    &&& counter_bits(structure.gop_size, sps.log2_max_frame_num_minus4)
    &&& sps.log2_max_pic_order_cnt_lsb_minus4 == sps.log2_max_frame_num_minus4
    &&& sps.pic_width_in_mbs_minus1 == width / block as int - 1
    &&& sps.pic_height_in_map_units_minus1 == height / block as int - 1
    &&& sps.frame_crop_right_offset == (width - params.width) / 2
    &&& sps.frame_crop_bottom_offset == (height - params.height) / 2
    &&& sps.frame_cropping == (sps.frame_crop_right_offset > 0 || sps.frame_crop_bottom_offset > 0)
    &&& (sps.colour_primaries, sps.transfer_characteristics, sps.matrix_coefficients)
        == colour_description(params.profile)
}

/// Determines the parameters of a sequence. `block` is the size of a
/// macroblock; the picture is made of whole ones and cropped.
pub fn sequence_parameters(
    params: VideoStreamParams,
    structure: GopStructure,
    block: u32,
    max_level_idc: u32,
) -> (result: Result<SequenceParameters, EncoderError>)
    requires
        block != 0,
        params.width != 0,
        params.height != 0,
        crate::math::next_multiple(params.width as int, block as int) <= u32::MAX,
        crate::math::next_multiple(params.height as int, block as int) <= u32::MAX,
        structure.gop_size <= 0x8000_0000,
    ensures
        match result {
            Err(err) => err == EncoderError::LevelTooLow && max_level_idc != 0 && max_level_idc
                < LEVEL_IDC,
            Ok(sps) => (max_level_idc == 0 || max_level_idc >= LEVEL_IDC) && describes_stream(
                sps,
                params,
                structure,
                block,
            ),
        },
{
    if max_level_idc != 0 && max_level_idc < LEVEL_IDC {
        return Err(EncoderError::LevelTooLow);
    }
    let width: u32 = next_multiple_of(params.width, block);
    let height: u32 = next_multiple_of(params.height, block);
    proof {
        crate::math::lemma_next_multiple(params.width as int, block as int);
        crate::math::lemma_next_multiple(params.height as int, block as int);
        lemma_whole_blocks(width as int, block as int);
        lemma_whole_blocks(height as int, block as int);
    }
    let crop_right: u32 = (width - params.width) / 2;
    let crop_bottom: u32 = (height - params.height) / 2;
    let (colour_primaries, transfer_characteristics, matrix_coefficients): (u8, u8, u8) =
        match params.profile {
        VideoProfile::Hd => (1, 1, 1),
        VideoProfile::Hdr10 => (9, 16, 9),
    };
    let exponent: u32 = log2_ceil(structure.gop_size);
    let bits: u8 = if exponent < 4 {
        0
    } else {
        (exponent - 4) as u8
    };
    assert(crate::math::is_log2_ceil(structure.gop_size as nat, exponent as nat));
    let (profile_idc, component_bit_depth, bit_depth_minus8): (u32, u32, u8) =
        match params.profile {
        VideoProfile::Hd => (PROFILE_IDC_HIGH, BIT_DEPTH_8, 0),
        VideoProfile::Hdr10 => (PROFILE_IDC_HIGH_10, BIT_DEPTH_10, 2),
    };
    Ok(
        SequenceParameters {
            profile_idc,
            level_idc: LEVEL_IDC,
            component_bit_depth,
            bit_depth_minus8,
            log2_max_frame_num_minus4: bits,
            log2_max_pic_order_cnt_lsb_minus4: bits,
            pic_width_in_mbs_minus1: width / block - 1,
            pic_height_in_map_units_minus1: height / block - 1,
            frame_crop_right_offset: crop_right,
            frame_crop_bottom_offset: crop_bottom,
            frame_cropping: crop_right > 0 || crop_bottom > 0,
            colour_primaries,
            transfer_characteristics,
            matrix_coefficients,
        },
    )
}

proof fn lemma_whole_blocks(size: int, block: int)
    requires
        size > 0,
        block > 0,
        size % block == 0,
    ensures
        size / block >= 1,
{
    assert(size / block >= 1) by (nonlinear_arith)
        requires
            size > 0,
            block > 0,
            size % block == 0,
    ;
}

/// What the driver can do with H.264.
#[derive(Debug, Clone, Copy, PartialEq, Eq, Structural)]
pub struct H264Capabilities {
    pub max_temporal_layers: u32,
    pub max_rate_control_layers: u32,
    pub rate_control_modes: u32,
    pub max_dpb_slots: u32,
    pub min_qp: i32,
    pub max_qp: i32,
    /// Zero stands for no limit.
    pub max_level_idc: u32,
    /// The side of a macroblock.
    pub block: u32,
}

impl H264Capabilities {
    pub open spec fn lowest_qp(self) -> u32 {
        (if self.min_qp < 0 {
            DEFAULT_MIN_QP as int
        } else {
            self.min_qp as int
        }) as u32
    }

    pub open spec fn highest_qp(self) -> u32 {
        (if self.max_qp < 0 {
            DEFAULT_MAX_QP as int
        } else {
            self.max_qp as int
        }) as u32
    }
}

/// How a stream is encoded.
pub struct StreamPlan {
    pub structure: GopStructure,
    pub rc_mode: RateControlMode,
    pub sps: SequenceParameters,
}

/// Decides how a stream is encoded. `required_dpb_size` gives, for each number
/// of layers, how many pictures have to be kept; the bitrates are for a stream
/// with these parameters, if its bitrate varies.
pub fn plan_stream(
    params: VideoStreamParams,
    caps: H264Capabilities,
    required_dpb_size: &Vec<u32>,
    average_bitrate: u64,
    peak_bitrate: u64,
) -> (result: Result<StreamPlan, EncoderError>)
    requires
        params.preset <= 9,
        params.width != 0,
        params.height != 0,
        caps.block != 0,
        crate::math::next_multiple(params.width as int, caps.block as int) <= u32::MAX,
        crate::math::next_multiple(params.height as int, caps.block as int) <= u32::MAX,
        crate::encoder::rate_control::lowest_qp(caps.lowest_qp()) <= caps.highest_qp(),
        required_dpb_size@.len() > crate::encoder::session::MAX_LAYERS,
    ensures
        ({
            let structure = GopStructure {
                layers: 1,
                gop_size: crate::encoder::session::DEFAULT_GOP_SIZE,
            };
            if required_dpb_size@[1] > caps.max_dpb_slots {
                result == Err::<StreamPlan, EncoderError>(EncoderError::TooFewDpbSlots)
            } else if caps.max_level_idc != 0 && caps.max_level_idc < LEVEL_IDC {
                result == Err::<StreamPlan, EncoderError>(EncoderError::LevelTooLow)
            } else {
                &&& result is Ok
                &&& result->Ok_0.structure == structure
                &&& result->Ok_0.rc_mode == crate::encoder::rate_control::selected_mode(
                    params,
                    caps.rate_control_modes,
                    caps.lowest_qp(),
                    caps.highest_qp(),
                    1,
                    average_bitrate,
                    peak_bitrate,
                )
                &&& describes_stream(result->Ok_0.sps, params, structure, caps.block)
            }
        }),
{
    let layers: u32 = supported_layers(caps.max_temporal_layers, caps.max_rate_control_layers);
    let structure = match default_structure(
        VideoCodec::H264,
        layers,
        caps.max_dpb_slots,
        required_dpb_size,
    ) {
        Ok(structure) => structure,
        Err(err) => {
            return Err(err);
        },
    };
    let rc_mode = select_rc_mode(
        params,
        caps.rate_control_modes,
        qp_limit(caps.min_qp, DEFAULT_MIN_QP),
        qp_limit(caps.max_qp, DEFAULT_MAX_QP),
        structure.layers,
        average_bitrate,
        peak_bitrate,
    );
    match sequence_parameters(params, structure, caps.block, caps.max_level_idc) {
        Ok(sps) => Ok(StreamPlan { structure, rc_mode, sps }),
        Err(err) => Err(err),
    }
}

#[derive(Debug, Clone, Copy, PartialEq, Eq, Structural)]
pub struct H264Metadata {
    pub frame_num: u32,
    pub pic_order_cnt: i32,
}

/// The state of an H.264 stream.
pub struct H264Encoder {
    pub rc_mode: RateControlMode,
    pub structure: GopStructure,
    /// What was recorded of the last picture of each layer.
    pub pic_metadata: Vec<H264Metadata>,
    pub idr_num: u32,
    pub frame_num: u32,
    pub headers: Bytes,
}

/// The rate control settings of a layer.
#[derive(Debug, Clone, Copy, PartialEq, Eq, Structural)]
pub struct RateControlLayer {
    pub min_qp: i32,
    pub max_qp: i32,
    pub peak_bitrate: u64,
    pub average_bitrate: u64,
    pub frame_rate_numerator: u32,
    pub frame_rate_denominator: u32,
}

/// What the encoder is told of a reference picture.
#[derive(Debug, Clone, Copy, PartialEq, Eq, Structural)]
pub struct ReferenceInfo {
    pub frame_num: u32,
    pub pic_order_cnt: i32,
    pub temporal_id: u8,
}

/// What the encoder is told of a picture.
pub struct H264Picture {
    pub rc_layers: Vec<RateControlLayer>,
    pub rc_flags: u32,
    pub vbv_size_ms: u32,
    pub slice_type: u32,
    pub constant_qp: i32,
    pub ref_list0: Vec<u8>,
    pub idr_pic_id: u16,
    pub primary_pic_type: u32,
    pub is_idr: bool,
    pub is_reference: bool,
    pub setup: ReferenceInfo,
    pub references: Vec<ReferenceInfo>,
    /// Headers that go before the picture.
    pub insert: Option<Bytes>,
}

/// The layers of a variable bitrate, each with its share of the frame rate.
pub open spec fn rc_layers(mode: RateControlMode, framerates: Seq<(u32, u32)>) -> Seq<
    RateControlLayer,
> {
    match mode {
        RateControlMode::Vbr(vbr) => Seq::new(
            framerates.len(),
            |i: int|
                {
                    let settings = vbr.layer_settings(i as u32);
                    RateControlLayer {
                        min_qp: settings.min_qp as i32,
                        max_qp: settings.max_qp as i32,
                        peak_bitrate: settings.peak_bitrate,
                        average_bitrate: settings.average_bitrate,
                        frame_rate_numerator: framerates[i].0,
                        frame_rate_denominator: framerates[i].1,
                    }
                },
        ),
        _ => Seq::empty(),
    }
}

/// The list of reference slots, filled up with 255.
pub open spec fn ref_list(slots: Seq<Option<u32>>) -> Seq<u8> {
    Seq::new(
        REF_LIST_LEN as nat,
        |i: int|
            if i < slots.len() {
                slots[i]->0 as u8
            } else {
                255u8
            },
    )
}

/// What the encoder is told of a frame, given what it remembers of earlier
/// ones.
pub open spec fn describes_picture(
    encoder: H264Encoder,
    frame: GopFrame,
    slots: Seq<Option<u32>>,
    framerates: Seq<(u32, u32)>,
    picture: H264Picture,
) -> bool {
    &&& picture.rc_layers@ == rc_layers(encoder.rc_mode, framerates)
    &&& picture.rc_flags == RATE_CONTROL_REGULAR_GOP
        | if encoder.structure.layers > 1 {
        RATE_CONTROL_TEMPORAL_LAYER_PATTERN_DYADIC
    } else {
        RATE_CONTROL_REFERENCE_PATTERN_FLAT
    }
    &&& picture.vbv_size_ms == match encoder.rc_mode {
        RateControlMode::Vbr(vbr) => vbr.vbv_size_ms,
        _ => 0u32,
    }
    &&& picture.slice_type == if frame.is_keyframe {
        SLICE_TYPE_I + 5
    } else {
        SLICE_TYPE_P + 5
    }
    &&& picture.primary_pic_type == if frame.is_keyframe {
        PICTURE_TYPE_IDR
    } else {
        PICTURE_TYPE_P
    }
    &&& picture.is_idr == frame.is_keyframe
    &&& picture.is_reference == (frame.forward_ref_count > 0)
    &&& picture.constant_qp == match encoder.rc_mode {
        RateControlMode::ConstantQp(qp) => {
            let layer = crate::encoder::rate_control::layer_qp_of(
                qp.target as int,
                frame.id as int,
            );
            if layer < qp.max {
                layer as u32 as i32
            } else {
                qp.max as i32
            }
        },
        _ => 0i32,
    }
    &&& picture.ref_list0@ == ref_list(slots)
    &&& picture.idr_pic_id == encoder.next_idr_num(frame) as u16
    &&& picture.setup == (ReferenceInfo {
        frame_num: encoder.next_frame_num(frame),
        pic_order_cnt: frame.gop_position as i32,
        temporal_id: frame.id as u8,
    })
    &&& picture.references@ == encoder.reference_infos(frame.ref_ids@)
    &&& picture.insert is Some == frame.is_keyframe
    &&& frame.is_keyframe ==> crate::bytes_ext::contents(picture.insert->0)
        == crate::bytes_ext::contents(encoder.headers)
}

/// What is remembered once a frame was submitted.
pub open spec fn remembers_frame(
    before: H264Encoder,
    frame: GopFrame,
    after: H264Encoder,
) -> bool {
    &&& after.pic_metadata@ == before.pic_metadata@.update(
        frame.id as int,
        H264Metadata { frame_num: before.frame_num, pic_order_cnt: frame.gop_position as i32 },
    )
    &&& after.frame_num == if frame.forward_ref_count > 0 {
        before.frame_num + 1
    } else {
        before.frame_num as int
    }
    &&& after.idr_num == before.idr_num
    &&& after.rc_mode == before.rc_mode
    &&& after.structure == before.structure
    &&& after.headers == before.headers
}

impl H264Encoder {
    /// A stream that starts with the given headers.
    pub fn new(rc_mode: RateControlMode, structure: GopStructure, headers: Bytes) -> (result:
        Result<H264Encoder, EncoderError>)
        ensures
            match result {
                Err(err) => err == EncoderError::NoHeaders && crate::bytes_ext::contents(
                    headers,
                ).len() == 0,
                Ok(encoder) => {
                    &&& crate::bytes_ext::contents(headers).len() > 0
                    &&& encoder.rc_mode == rc_mode
                    &&& encoder.structure == structure
                    &&& encoder.pic_metadata@ == Seq::new(
                        structure.layers as nat,
                        |i: int| H264Metadata { frame_num: 0, pic_order_cnt: 0 },
                    )
                    &&& encoder.idr_num == 0
                    &&& encoder.frame_num == 0
                    &&& encoder.headers == headers
                },
            },
    {
        if bytes_len(&headers) == 0 {
            return Err(EncoderError::NoHeaders);
        }
        let mut pic_metadata: Vec<H264Metadata> = Vec::new();
        let mut i: u32 = 0;
        while i < structure.layers
            invariant
                i <= structure.layers,
                pic_metadata@ =~= Seq::new(
                    i as nat,
                    |j: int| H264Metadata { frame_num: 0, pic_order_cnt: 0 },
                ),
            decreases structure.layers - i,
        {
            pic_metadata.push(H264Metadata { frame_num: 0, pic_order_cnt: 0 });
            i += 1;
        }
        Ok(H264Encoder { rc_mode, structure, pic_metadata, idr_num: 0, frame_num: 0, headers })
    }

    /// The number of the group of pictures that a frame belongs to.
    pub open spec fn next_idr_num(self, frame: GopFrame) -> u32 {
        if frame.is_keyframe {
            (self.idr_num + 1) as u32
        } else {
            self.idr_num
        }
    }

    /// The frame number: it starts over with each group of pictures.
    pub open spec fn next_frame_num(self, frame: GopFrame) -> u32 {
        if frame.gop_position == 0 {
            0
        } else {
            self.frame_num
        }
    }

    /// The stream can take this frame.
    pub open spec fn accepts(
        self,
        frame: GopFrame,
        slots: Seq<Option<u32>>,
        framerates: Seq<(u32, u32)>,
    ) -> bool {
        &&& self.idr_num < u32::MAX
        &&& self.pic_metadata@.len() == self.structure.layers
        &&& framerates.len() == self.structure.layers
        &&& slots.len() == frame.ref_ids@.len()
        &&& slots.len() <= REF_LIST_LEN
        &&& frame.id < self.structure.layers
        &&& forall|i: int|
            0 <= i < frame.ref_ids@.len() ==> #[trigger] frame.ref_ids@[i] < self.structure.layers
        &&& match self.rc_mode {
            RateControlMode::Vbr(vbr) => forall|l: u32|
                l < self.structure.layers ==> #[trigger] vbr.has_layer(l),
            RateControlMode::ConstantQp(qp) => crate::encoder::rate_control::layer_qp_of(
                qp.target as int,
                frame.id as int,
            ) <= u32::MAX,
            RateControlMode::Defaults => true,
        }
    }

    fn rate_control_layers(&self, framerates: &Vec<(u32, u32)>) -> (layers: Vec<RateControlLayer>)
        requires
            framerates@.len() == self.structure.layers,
            self.rc_mode matches RateControlMode::Vbr(vbr) ==> (forall|l: u32|
                l < self.structure.layers ==> #[trigger] vbr.has_layer(l)),
        ensures
            layers@ == rc_layers(self.rc_mode, framerates@),
    {
        let mut layers: Vec<RateControlLayer> = Vec::new();
        if let RateControlMode::Vbr(vbr) = self.rc_mode {
            let mut i: u32 = 0;
            while i < self.structure.layers
                invariant
                    i <= self.structure.layers,
                    framerates@.len() == self.structure.layers,
                    self.rc_mode == RateControlMode::Vbr(vbr),
                    forall|l: u32| l < self.structure.layers ==> #[trigger] vbr.has_layer(l),
                    layers@ =~= rc_layers(self.rc_mode, framerates@.take(i as int)),
                decreases self.structure.layers - i,
            {
                let settings = vbr.layer(i);
                let rate: (u32, u32) = framerates[i as usize];
                layers.push(
                    RateControlLayer {
                        min_qp: settings.min_qp as i32,
                        max_qp: settings.max_qp as i32,
                        peak_bitrate: settings.peak_bitrate,
                        average_bitrate: settings.average_bitrate,
                        frame_rate_numerator: rate.0,
                        frame_rate_denominator: rate.1,
                    },
                );
                i += 1;
            }
            assert(framerates@.take(i as int) =~= framerates@);
        }
        assert(layers@ =~= rc_layers(self.rc_mode, framerates@));
        layers
    }

    /// Decides what the encoder is told of the next frame. `slots` gives, for
    /// each reference, its slot in the decoded picture buffer; `framerates`
    /// gives, for each layer, its share of the frame rate.
    pub fn prepare_picture(
        &mut self,
        frame: &GopFrame,
        slots: &Vec<Option<u32>>,
        framerates: &Vec<(u32, u32)>,
    ) -> (result: Result<H264Picture, EncoderError>)
        requires
            old(self).accepts(*frame, slots@, framerates@),
        ensures
            final(self).idr_num == old(self).next_idr_num(*frame),
            final(self).frame_num == old(self).next_frame_num(*frame),
            final(self).rc_mode == old(self).rc_mode,
            final(self).structure == old(self).structure,
            final(self).pic_metadata@ == old(self).pic_metadata@,
            final(self).headers == old(self).headers,
            match result {
                Err(err) => exists|i: int|
                    0 <= i < slots@.len() && (#[trigger] slots@[i]) is None && (forall|j: int|
                        0 <= j < i ==> #[trigger] slots@[j] is Some) && err
                        == EncoderError::MissingReference(frame.ref_ids@[i]),
                Ok(picture) => {
                    &&& forall|i: int| 0 <= i < slots@.len() ==> #[trigger] slots@[i] is Some
                    &&& describes_picture(*old(self), *frame, slots@, framerates@, picture)
                },
            },
    {
        if frame.is_keyframe {
            self.idr_num = self.idr_num + 1;
        }
        if frame.gop_position == 0 {
            self.frame_num = 0;
        }
        let layers = self.rate_control_layers(framerates);
        let pattern: u32 = if self.structure.layers > 1 {
            RATE_CONTROL_TEMPORAL_LAYER_PATTERN_DYADIC
        } else {
            RATE_CONTROL_REFERENCE_PATTERN_FLAT
        };
        let vbv_size_ms: u32 = match self.rc_mode {
            RateControlMode::Vbr(vbr) => vbr.vbv_size_ms,
            _ => 0,
        };
        let constant_qp: i32 = match self.rc_mode {
            RateControlMode::ConstantQp(qp) => qp.layer(frame.id) as i32,
            _ => 0,
        };
        let mut ref_list0: Vec<u8> = Vec::new();
        let mut references: Vec<ReferenceInfo> = Vec::new();
        let mut i: usize = 0;
        while i < frame.ref_ids.len()
            invariant
                i <= slots@.len(),
                slots@.len() == frame.ref_ids@.len(),
                slots@.len() <= REF_LIST_LEN,
                self.pic_metadata@ == old(self).pic_metadata@,
                self.pic_metadata@.len() == self.structure.layers,
                self.structure == old(self).structure,
                self.idr_num == old(self).next_idr_num(*frame),
                self.frame_num == old(self).next_frame_num(*frame),
                self.rc_mode == old(self).rc_mode,
                self.headers == old(self).headers,
                forall|j: int|
                    0 <= j < frame.ref_ids@.len() ==> #[trigger] frame.ref_ids@[j]
                        < self.structure.layers,
                forall|j: int| 0 <= j < i ==> #[trigger] slots@[j] is Some,
                ref_list0@ =~= Seq::new(i as nat, |j: int| slots@[j]->0 as u8),
                references@ =~= self.reference_infos(frame.ref_ids@.take(i as int)),
            decreases slots.len() - i,
        {
            let id: u32 = frame.ref_ids[i];
            match slots[i] {
                Some(slot) => {
                    ref_list0.push(slot as u8);
                    let metadata: H264Metadata = self.pic_metadata[id as usize];
                    references.push(
                        ReferenceInfo {
                            frame_num: metadata.frame_num,
                            pic_order_cnt: metadata.pic_order_cnt,
                            temporal_id: id as u8,
                        },
                    );
                },
                None => {
                    return Err(EncoderError::MissingReference(id));
                },
            }
            i += 1;
        }
        assert(frame.ref_ids@.take(i as int) =~= frame.ref_ids@);
        while ref_list0.len() < REF_LIST_LEN
            invariant
                slots@.len() <= ref_list0@.len() <= REF_LIST_LEN,
                ref_list0@ =~= Seq::new(
                    ref_list0@.len(),
                    |j: int|
                        if j < slots@.len() {
                            slots@[j]->0 as u8
                        } else {
                            255u8
                        },
                ),
            decreases REF_LIST_LEN - ref_list0.len(),
        {
            ref_list0.push(255);
        }
        assert(ref_list0@ =~= ref_list(slots@));
        assert(references@ =~= old(self).reference_infos(frame.ref_ids@));
        let insert = if frame.is_keyframe {
            Some(bytes_clone(&self.headers))
        } else {
            None
        };
        Ok(
            H264Picture {
                rc_layers: layers,
                rc_flags: RATE_CONTROL_REGULAR_GOP | pattern,
                vbv_size_ms,
                slice_type: if frame.is_keyframe {
                    SLICE_TYPE_I + 5
                } else {
                    SLICE_TYPE_P + 5
                },
                constant_qp,
                ref_list0,
                idr_pic_id: self.idr_num as u16,
                primary_pic_type: if frame.is_keyframe {
                    PICTURE_TYPE_IDR
                } else {
                    PICTURE_TYPE_P
                },
                is_idr: frame.is_keyframe,
                is_reference: frame.forward_ref_count > 0,
                setup: ReferenceInfo {
                    frame_num: self.frame_num,
                    pic_order_cnt: frame.gop_position as i32,
                    temporal_id: frame.id as u8,
                },
                references,
                insert,
            },
        )
    }

    /// What was recorded of the pictures that a frame refers to.
    pub open spec fn reference_infos(self, ref_ids: Seq<u32>) -> Seq<ReferenceInfo> {
        ref_ids.map_values(
            |id: u32|
                ReferenceInfo {
                    frame_num: self.pic_metadata@[id as int].frame_num,
                    pic_order_cnt: self.pic_metadata@[id as int].pic_order_cnt,
                    temporal_id: id as u8,
                },
        )
    }

    /// Records that a frame was submitted. The frame number counts only frames
    /// that others refer to.
    pub fn picture_submitted(&mut self, frame: &GopFrame)
        requires
            frame.id < old(self).pic_metadata@.len(),
            old(self).frame_num < u32::MAX,
        ensures
            remembers_frame(*old(self), *frame, *final(self)),
    {
        let metadata = H264Metadata {
            frame_num: self.frame_num,
            pic_order_cnt: frame.gop_position as i32,
        };
        self.pic_metadata[frame.id as usize] = metadata;
        if frame.forward_ref_count > 0 {
            self.frame_num = self.frame_num + 1;
        }
    }
}

/// What is told of a reference is what was told of it as a picture.
pub proof fn reference_matches_setup(
    before: H264Encoder,
    recorded: H264Encoder,
    frame: GopFrame,
    ref_ids: Seq<u32>,
    i: int,
)
    requires
        frame.id < before.pic_metadata@.len(),
        recorded.pic_metadata@ == before.pic_metadata@.update(
            frame.id as int,
            H264Metadata {
                frame_num: before.frame_num,
                pic_order_cnt: frame.gop_position as i32,
            },
        ),
        0 <= i < ref_ids.len(),
        ref_ids[i] == frame.id,
    ensures
        recorded.reference_infos(ref_ids)[i] == (ReferenceInfo {
            frame_num: before.frame_num,
            pic_order_cnt: frame.gop_position as i32,
            temporal_id: frame.id as u8,
        }),
{
}

/// A picture is made of whole macroblocks, no more than needed, and cropped to
/// the size of the stream. Only an odd size cannot be met exactly: cropping goes
/// by two pixels.
pub proof fn picture_is_cropped_to_stream(
    sps: SequenceParameters,
    params: VideoStreamParams,
    structure: GopStructure,
    block: u32,
)
    requires
        block != 0,
        params.width != 0,
        params.height != 0,
        describes_stream(sps, params, structure, block),
    ensures
        ({
            let coded_width = (sps.pic_width_in_mbs_minus1 + 1) * block;
            let coded_height = (sps.pic_height_in_map_units_minus1 + 1) * block;
            &&& params.width <= coded_width < params.width + block
            &&& params.height <= coded_height < params.height + block
            &&& 0 <= coded_width - 2 * sps.frame_crop_right_offset - params.width <= 1
            &&& 0 <= coded_height - 2 * sps.frame_crop_bottom_offset - params.height <= 1
            &&& sps.frame_crop_right_offset > 0 || sps.frame_crop_bottom_offset > 0
                <==> sps.frame_cropping
        }),
{
    let width = crate::math::next_multiple(params.width as int, block as int);
    let height = crate::math::next_multiple(params.height as int, block as int);
    crate::math::lemma_next_multiple(params.width as int, block as int);
    crate::math::lemma_next_multiple(params.height as int, block as int);
    vstd::arithmetic::div_mod::lemma_fundamental_div_mod(width, block as int);
    vstd::arithmetic::div_mod::lemma_fundamental_div_mod(height, block as int);
    assert((width / block as int) * block == block * (width / block as int)) by (nonlinear_arith);
    assert((height / block as int) * block == block * (height / block as int)) by (nonlinear_arith);
}

/// The depth and the colours of a stream are those of its profile, and its
/// counters reach from one keyframe to the next.
pub proof fn sequence_follows_profile(
    sps: SequenceParameters,
    params: VideoStreamParams,
    structure: GopStructure,
    block: u32,
)
    requires
        describes_stream(sps, params, structure, block),
    ensures
        sps.bit_depth_minus8 + 8 == if params.profile is Hdr10 { 10int } else { 8 },
        sps.profile_idc == if params.profile is Hdr10 { 110u32 } else { 100 },
        params.profile is Hd ==> sps.component_bit_depth == 1 && sps.colour_primaries == 1
            && sps.transfer_characteristics == 1 && sps.matrix_coefficients == 1,
        params.profile is Hdr10 ==> sps.component_bit_depth == 4 && sps.colour_primaries == 9
            && sps.transfer_characteristics == 16 && sps.matrix_coefficients == 9,
        sps.level_idc == 15,
        structure.gop_size <= vstd::arithmetic::power2::pow2(
            (sps.log2_max_frame_num_minus4 + 4) as nat,
        ),
        structure.gop_size <= vstd::arithmetic::power2::pow2(
            (sps.log2_max_pic_order_cnt_lsb_minus4 + 4) as nat,
        ),
        structure.gop_size > 16 ==> structure.gop_size > vstd::arithmetic::power2::pow2(
            (sps.log2_max_frame_num_minus4 + 3) as nat,
        ),
{
    let p = choose|p: nat| #[trigger]
        crate::math::is_log2_ceil(structure.gop_size as nat, p)
            && sps.log2_max_frame_num_minus4 == if p < 4 {
            0int
        } else {
            p - 4
        };
    vstd::arithmetic::power2::lemma2_to64();
    if p < 4 {
        vstd::arithmetic::power2::lemma_pow2_strictly_increases(p, 4);
    }
}

/// A keyframe is an intra picture that starts with the headers of the stream
/// and refers to nothing before it in the numbering; any other frame is
/// predicted, and comes without headers.
pub proof fn keyframe_is_intra(
    encoder: H264Encoder,
    frame: GopFrame,
    slots: Seq<Option<u32>>,
    framerates: Seq<(u32, u32)>,
    picture: H264Picture,
)
    requires
        encoder.idr_num < u32::MAX,
        describes_picture(encoder, frame, slots, framerates, picture),
    ensures
        picture.is_idr <==> frame.is_keyframe,
        picture.slice_type == 7 <==> frame.is_keyframe,
        picture.slice_type == 5 <==> !frame.is_keyframe,
        picture.primary_pic_type == 5 <==> frame.is_keyframe,
        picture.primary_pic_type == 0 <==> !frame.is_keyframe,
        picture.insert is Some <==> frame.is_keyframe,
        picture.insert is Some ==> crate::bytes_ext::contents(picture.insert->0)
            == crate::bytes_ext::contents(encoder.headers),
        frame.is_keyframe ==> encoder.next_idr_num(frame) == encoder.idr_num + 1,
        !frame.is_keyframe ==> encoder.next_idr_num(frame) == encoder.idr_num,
        encoder.idr_num < 0xffff ==> picture.idr_pic_id == encoder.idr_num + (
        if frame.is_keyframe { 1int } else { 0 }),
        picture.is_reference <==> frame.forward_ref_count > 0,
        picture.setup.pic_order_cnt == frame.gop_position as i32,
        picture.setup.temporal_id == frame.id as u8,
        frame.gop_position == 0 ==> picture.setup.frame_num == 0,
{
}

/// The references of a picture are the slots that hold them, in order, and the
/// rest of the list is marked as empty.
pub proof fn references_are_listed(
    encoder: H264Encoder,
    frame: GopFrame,
    slots: Seq<Option<u32>>,
    framerates: Seq<(u32, u32)>,
    picture: H264Picture,
    i: int,
)
    requires
        slots.len() == frame.ref_ids@.len(),
        slots.len() <= 32,
        describes_picture(encoder, frame, slots, framerates, picture),
    ensures
        picture.ref_list0@.len() == 32,
        0 <= i < slots.len() ==> picture.ref_list0@[i] == slots[i]->0 as u8,
        slots.len() <= i < 32 ==> picture.ref_list0@[i] == 255,
        picture.references@.len() == slots.len(),
        0 <= i < slots.len() ==> picture.references@[i].temporal_id == frame.ref_ids@[i] as u8,
{
}

/// The encoder gets, for each layer, the share of the bitrate and of the frame
/// rate that the layer has, or a constant QP that rises with the layers up to a
/// limit, but never both.
pub proof fn rate_control_is_passed_on(
    encoder: H264Encoder,
    frame: GopFrame,
    slots: Seq<Option<u32>>,
    framerates: Seq<(u32, u32)>,
    picture: H264Picture,
    i: int,
)
    requires
        describes_picture(encoder, frame, slots, framerates, picture),
        framerates.len() <= u32::MAX,
        0 <= i < framerates.len(),
    ensures
        match encoder.rc_mode {
            RateControlMode::Vbr(vbr) => {
                let settings = vbr.layer_settings(i as u32);
                let layer = picture.rc_layers@[i];
                &&& picture.rc_layers@.len() == framerates.len()
                &&& layer.average_bitrate == settings.average_bitrate
                &&& layer.peak_bitrate == settings.peak_bitrate
                &&& layer.min_qp == settings.min_qp as i32
                &&& layer.max_qp == settings.max_qp as i32
                &&& layer.frame_rate_numerator == framerates[i].0
                &&& layer.frame_rate_denominator == framerates[i].1
                &&& picture.vbv_size_ms == vbr.vbv_size_ms
                &&& picture.constant_qp == 0
            },
            RateControlMode::ConstantQp(qp) => {
                &&& picture.rc_layers@.len() == 0
                &&& picture.vbv_size_ms == 0
                &&& qp.target <= qp.max <= i32::MAX ==> picture.constant_qp <= qp.max
                &&& qp.target <= qp.max <= i32::MAX && frame.id == 0 ==> picture.constant_qp
                    == qp.target
                &&& qp.max <= i32::MAX && qp.target + 3 + 2 * frame.id < qp.max && frame.id > 0
                    ==> picture.constant_qp == qp.target + 3 + 2 * frame.id
            },
            RateControlMode::Defaults => picture.rc_layers@.len() == 0 && picture.constant_qp == 0
                && picture.vbv_size_ms == 0,
        },
        picture.rc_flags == if encoder.structure.layers > 1 { 18u32 } else { 6 },
{
    assert(2u32 | 16u32 == 18u32) by (bit_vector);
    assert(2u32 | 4u32 == 6u32) by (bit_vector);
}

/// The number of a frame counts the frames before it in its group that others
/// refer to; and what a later frame is told of an earlier one, as a reference, is
/// what was told of that frame itself.
pub proof fn next_picture_follows(
    encoder: H264Encoder,
    first: GopFrame,
    prepared: H264Encoder,
    submitted: H264Encoder,
    second: GopFrame,
    first_slots: Seq<Option<u32>>,
    second_slots: Seq<Option<u32>>,
    framerates: Seq<(u32, u32)>,
    first_picture: H264Picture,
    second_picture: H264Picture,
    i: int,
)
    requires
        prepared.frame_num == encoder.next_frame_num(first),
        prepared.pic_metadata@ == encoder.pic_metadata@,
        prepared.frame_num < u32::MAX,
        first.id < encoder.pic_metadata@.len(),
        describes_picture(encoder, first, first_slots, framerates, first_picture),
        remembers_frame(prepared, first, submitted),
        describes_picture(submitted, second, second_slots, framerates, second_picture),
    ensures
        second.gop_position != 0 && first.forward_ref_count > 0
            ==> second_picture.setup.frame_num == first_picture.setup.frame_num + 1,
        second.gop_position != 0 && first.forward_ref_count == 0
            ==> second_picture.setup.frame_num == first_picture.setup.frame_num,
        second.gop_position == 0 ==> second_picture.setup.frame_num == 0,
        0 <= i < second.ref_ids@.len() && second.ref_ids@[i] == first.id
            ==> second_picture.references@[i] == first_picture.setup,
{
}

/// Limits that the driver gives are kept; where it gives none, those of the format
/// hold.
pub proof fn limits_of_driver_are_kept(caps: H264Capabilities)
    ensures
        caps.min_qp >= 0 ==> caps.lowest_qp() == caps.min_qp,
        caps.max_qp >= 0 ==> caps.highest_qp() == caps.max_qp,
        caps.min_qp < 0 ==> caps.lowest_qp() == DEFAULT_MIN_QP,
        caps.max_qp < 0 ==> caps.highest_qp() == DEFAULT_MAX_QP,
{
}

/// A stream is planned just if the driver keeps enough pictures and reaches the
/// level of the stream, and a stream whose bitrate varies has the two bitrates that
/// were asked for.
pub proof fn planned_stream_is_within_driver(
    params: VideoStreamParams,
    caps: H264Capabilities,
    required_dpb_size: &Vec<u32>,
    average_bitrate: u64,
    peak_bitrate: u64,
    result: Result<StreamPlan, EncoderError>,
)
    requires
        call_requires(
            plan_stream,
            (params, caps, required_dpb_size, average_bitrate, peak_bitrate),
        ),
        call_ensures(
            plan_stream,
            (params, caps, required_dpb_size, average_bitrate, peak_bitrate),
            result,
        ),
    ensures
        result is Ok <==> required_dpb_size@[1] <= caps.max_dpb_slots && (caps.max_level_idc == 0
            || caps.max_level_idc >= LEVEL_IDC),
        result matches Err(err) ==> (err == EncoderError::TooFewDpbSlots
            <==> required_dpb_size@[1] > caps.max_dpb_slots),
        result matches Err(err) ==> err == EncoderError::TooFewDpbSlots || err
            == EncoderError::LevelTooLow,
        result matches Ok(plan) ==> plan.structure.layers == 1,
        result matches Ok(plan) ==> (plan.rc_mode matches RateControlMode::Vbr(vbr)
            ==> vbr.base.average_bitrate == average_bitrate && vbr.base.peak_bitrate
            == peak_bitrate),
{
}

} // verus!
