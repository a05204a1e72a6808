//! Which parameters of a client make sense, and which are supported.

use vstd::prelude::*;
use crate::codec::{AudioCodec, VideoCodec};
use crate::control::{AudioStreamParams, DisplayParams, VideoStreamParams};
use crate::pixel_scale::{PixelScale, ProtocolPixelScale};
use crate::server::protocol::{
    Attach, AudioCodecField, ErrorCode, ServerError, ServerErrorView, Size, VideoCodecField,
    VirtualDisplayParameters,
};

verus! {

pub enum ValidationError {
    /// The client broke the protocol.
    Invalid(String),
    /// The server cannot do what the client asks for.
    NotSupported(String),
}

/// An error, with its text as a sequence of characters.
#[verifier::ext_equal]
pub enum ValidationErrorView {
    Invalid(Seq<char>),
    NotSupported(Seq<char>),
}

impl View for ValidationError {
    type V = ValidationErrorView;

    open spec fn view(&self) -> ValidationErrorView {
        match *self {
            ValidationError::Invalid(text) => ValidationErrorView::Invalid(text@),
            ValidationError::NotSupported(text) => ValidationErrorView::NotSupported(text@),
        }
    }
}

/// A result agrees with what is expected of it.
pub open spec fn agrees<T>(
    result: Result<T, ValidationError>,
    expected: Result<T, ValidationErrorView>,
) -> bool {
    match (result, expected) {
        (Ok(a), Ok(b)) => a == b,
        (Err(a), Err(b)) => a@ == b,
        _ => false,
    }
}

fn invalid(text: &str) -> (error: ValidationError)
    ensures
        error@ == ValidationErrorView::Invalid(text@),
{
    ValidationError::Invalid(text.to_owned())
}

fn not_supported(text: &str) -> (error: ValidationError)
    ensures
        error@ == ValidationErrorView::NotSupported(text@),
{
    ValidationError::NotSupported(text.to_owned())
}

/// A resolution is neither zero nor odd in either direction.
pub open spec fn valid_resolution(resolution: Option<Size>) -> Result<
    (u32, u32),
    ValidationErrorView,
> {
    match resolution {
        None => Err(ValidationErrorView::Invalid("resolution missing"@)),
        Some(size) => if size.width != 0 && size.height != 0 && size.width % 2 == 0 && size.height
            % 2 == 0 {
            Ok((size.width, size.height))
        } else {
            Err(ValidationErrorView::Invalid("resolution must be non-zero and even"@))
        },
    }
}

pub fn validate_resolution(resolution: Option<Size>) -> (result: Result<
    (u32, u32),
    ValidationError,
>)
    ensures
        agrees(result, valid_resolution(resolution)),
{
    match resolution {
        Some(size) => if size.width != 0 && size.height != 0 && size.width % 2 == 0 && size.height
            % 2 == 0 {
            Ok((size.width, size.height))
        } else {
            Err(invalid("resolution must be non-zero and even"))
        },
        None => Err(invalid("resolution missing")),
    }
}

/// Without a scale, pixels are not scaled.
pub open spec fn valid_ui_scale(ui_scale: Option<ProtocolPixelScale>) -> Result<
    PixelScale,
    ValidationErrorView,
> {
    match ui_scale {
        None => Ok(PixelScale(1, 1)),
        Some(scale) => match crate::pixel_scale::read_scale(scale) {
            Ok(s) => Ok(s),
            Err(_) => Err(ValidationErrorView::Invalid("invalid UI scale"@)),
        },
    }
}

pub fn validate_ui_scale(ui_scale: Option<ProtocolPixelScale>) -> (result: Result<
    PixelScale,
    ValidationError,
>)
    ensures
        agrees(result, valid_ui_scale(ui_scale)),
{
    match ui_scale {
        Some(scale) => match PixelScale::try_from_protocol(scale) {
            Ok(s) => Ok(s),
            Err(_) => Err(invalid("invalid UI scale")),
        },
        None => Ok(PixelScale::default()),
    }
}

/// By default, H.265 is used.
pub open spec fn valid_video_codec(codec: VideoCodecField) -> Result<
    VideoCodec,
    ValidationErrorView,
> {
    match codec {
        VideoCodecField::Unknown => Ok(VideoCodec::H265),
        VideoCodecField::Codec(c) => Ok(c),
        _ => Err(ValidationErrorView::Invalid("invalid video codec"@)),
    }
}

pub fn validate_video_codec(codec: VideoCodecField) -> (result: Result<
    VideoCodec,
    ValidationError,
>)
    ensures
        agrees(result, valid_video_codec(codec)),
{
    match codec {
        VideoCodecField::Unknown => Ok(VideoCodec::H265),
        VideoCodecField::Codec(c) => Ok(c),
        _ => Err(invalid("invalid video codec")),
    }
}

/// Sixty and thirty frames per second are supported.
pub open spec fn valid_framerate(framerate: u32) -> Result<u32, ValidationErrorView> {
    if framerate == 60 || framerate == 30 {
        Ok(framerate)
    } else {
        Err(ValidationErrorView::NotSupported("unsupported framerate"@))
    }
}

pub fn validate_framerate(framerate: u32) -> (result: Result<u32, ValidationError>)
    ensures
        agrees(result, valid_framerate(framerate)),
{
    match framerate {
        60 | 30 => Ok(framerate),
        _ => Err(not_supported("unsupported framerate")),
    }
}

/// By default, Opus is used.
pub open spec fn valid_audio_codec(codec: AudioCodecField) -> Result<
    AudioCodec,
    ValidationErrorView,
> {
    match codec {
        AudioCodecField::Unknown => Ok(AudioCodec::Opus),
        AudioCodecField::Codec(c) => Ok(c),
        _ => Err(ValidationErrorView::Invalid("invalid audio codec"@)),
    }
}

pub fn validate_audio_codec(codec: AudioCodecField) -> (result: Result<
    AudioCodec,
    ValidationError,
>)
    ensures
        agrees(result, valid_audio_codec(codec)),
{
    match codec {
        AudioCodecField::Unknown => Ok(AudioCodec::Opus),
        AudioCodecField::Codec(c) => Ok(c),
        _ => Err(invalid("invalid audio codec")),
    }
}

/// By default 48 kHz; otherwise from 16 to 48 kHz.
pub open spec fn valid_sample_rate(sample_rate: u32) -> Result<u32, ValidationErrorView> {
    if sample_rate == 0 {
        Ok(48000)
    } else if 16000 <= sample_rate <= 48000 {
        Ok(sample_rate)
    } else {
        Err(ValidationErrorView::Invalid("invalid sample rate"@))
    }
}

pub fn validate_sample_rate(sample_rate: u32) -> (result: Result<u32, ValidationError>)
    ensures
        agrees(result, valid_sample_rate(sample_rate)),
{
    if sample_rate == 0 {
        Ok(48000)
    } else if sample_rate < 16000 || sample_rate > 48000 {
        Err(invalid("invalid sample rate"))
    } else {
        Ok(sample_rate)
    }
}

/// The first channel that makes no sense.
pub open spec fn first_invalid(channels: Seq<Result<(), String>>, i: int) -> bool {
    &&& 0 <= i < channels.len()
    &&& channels[i] is Err
    &&& forall|j: int| 0 <= j < i ==> #[trigger] channels[j] is Ok
}

/// Stereo is what is supported, and the default. Every channel has to make
/// sense, before their number counts.
pub open spec fn valid_channels(
    channels: Option<Vec<Result<(), String>>>,
    result: Result<u32, ValidationErrorView>,
) -> bool {
    match channels {
        None => result == Ok::<u32, ValidationErrorView>(2),
        Some(list) => if exists|i: int| first_invalid(list@, i) {
            exists|i: int|
                first_invalid(list@, i) && result == Err::<u32, ValidationErrorView>(
                    ValidationErrorView::Invalid("invalid channel: "@ + list@[i]->Err_0@),
                )
        } else if list@.len() as u32 == 2 {
            result == Ok::<u32, ValidationErrorView>(2)
        } else {
            result == Err::<u32, ValidationErrorView>(
                ValidationErrorView::NotSupported("unsupported number of channels"@),
            )
        },
    }
}

pub open spec fn result_view(result: Result<u32, ValidationError>) -> Result<
    u32,
    ValidationErrorView,
> {
    match result {
        Ok(n) => Ok(n),
        Err(err) => Err(err@),
    }
}

pub fn validate_channels(channels: &Option<Vec<Result<(), String>>>) -> (result: Result<
    u32,
    ValidationError,
>)
    ensures
        valid_channels(*channels, result_view(result)),
{
    match channels {
        Some(list) => {
            let count: u32 = list.len() as u32;
            let mut i: usize = 0;
            while i < list.len()
                invariant
                    i <= list@.len(),
                    *channels == Some(*list),
                    forall|j: int| 0 <= j < i ==> #[trigger] list@[j] is Ok,
                decreases list.len() - i,
            {
                if let Err(text) = &list[i] {
                    let mut message = "invalid channel: ".to_owned();
                    message.append(text.as_str());
                    assert(first_invalid(list@, i as int));
                    let result: Result<u32, ValidationError> = Err(
                        ValidationError::Invalid(message),
                    );
                    assert(result_view(result) == Err::<u32, ValidationErrorView>(
                        ValidationErrorView::Invalid(
                            "invalid channel: "@ + list@[i as int]->Err_0@,
                        ),
                    ));
                    return result;
                }
                i += 1;
            }
            assert(forall|j: int| !first_invalid(list@, j));
            if count == 2 {
                Ok(count)
            } else {
                Err(not_supported("unsupported number of channels"))
            }
        },
        None => Ok(2),
    }
}

/// The parameters of a display, each checked in turn.
pub open spec fn valid_display_params(params: Option<VirtualDisplayParameters>) -> Result<
    DisplayParams,
    ValidationErrorView,
> {
    match params {
        None => Err(ValidationErrorView::Invalid("display parameters missing"@)),
        Some(params) => match valid_resolution(params.resolution) {
            Err(err) => Err(err),
            Ok((width, height)) => match valid_framerate(params.framerate_hz) {
                Err(err) => Err(err),
                Ok(framerate) => match valid_ui_scale(params.ui_scale) {
                    Err(err) => Err(err),
                    Ok(ui_scale) => Ok(DisplayParams { width, height, framerate, ui_scale }),
                },
            },
        },
    }
}

pub fn validate_display_params(params: Option<VirtualDisplayParameters>) -> (result: Result<
    DisplayParams,
    ValidationError,
>)
    ensures
        agrees(result, valid_display_params(params)),
{
    let params = match params {
        Some(params) => params,
        None => {
            return Err(invalid("display parameters missing"));
        },
    };
    let (width, height): (u32, u32) = match validate_resolution(params.resolution) {
        Ok(size) => size,
        Err(err) => {
            return Err(err);
        },
    };
    let framerate: u32 = match validate_framerate(params.framerate_hz) {
        Ok(framerate) => framerate,
        Err(err) => {
            return Err(err);
        },
    };
    let ui_scale = match validate_ui_scale(params.ui_scale) {
        Ok(ui_scale) => ui_scale,
        Err(err) => {
            return Err(err);
        },
    };
    Ok(DisplayParams { width, height, framerate, ui_scale })
}

/// The parameters of an attachment, each checked in turn. The profile and the
/// preset are taken as they are.
pub open spec fn valid_attachment(
    params: Attach,
    channels: Result<u32, ValidationErrorView>,
) -> Result<(VideoStreamParams, AudioStreamParams), ValidationErrorView> {
    match valid_resolution(params.streaming_resolution) {
        Err(err) => Err(err),
        Ok((width, height)) => match valid_video_codec(params.video_codec) {
            Err(err) => Err(err),
            Ok(video_codec) => match valid_sample_rate(params.sample_rate_hz) {
                Err(err) => Err(err),
                Ok(sample_rate) => match channels {
                    Err(err) => Err(err),
                    Ok(channels) => match valid_audio_codec(params.audio_codec) {
                        Err(err) => Err(err),
                        Ok(audio_codec) => Ok(
                            (
                                VideoStreamParams {
                                    width,
                                    height,
                                    codec: video_codec,
                                    preset: params.quality_preset,
                                    profile: params.video_profile,
                                },
                                AudioStreamParams { sample_rate, channels, codec: audio_codec },
                            ),
                        ),
                    },
                },
            },
        },
    }
}

pub fn validate_attachment(params: &Attach) -> (result: Result<
    (VideoStreamParams, AudioStreamParams),
    ValidationError,
>)
    ensures
        exists|channels: Result<u32, ValidationErrorView>| #[trigger]
            valid_channels(params.channels, channels) && agrees(
                result,
                valid_attachment(*params, channels),
            ),
{
    let channels = validate_channels(&params.channels);
    let ghost checked = result_view(channels);
    assert(valid_channels(params.channels, checked));
    let (width, height): (u32, u32) = match validate_resolution(params.streaming_resolution) {
        Ok(size) => size,
        Err(err) => {
            return Err(err);
        },
    };
    let video_codec = match validate_video_codec(params.video_codec) {
        Ok(codec) => codec,
        Err(err) => {
            return Err(err);
        },
    };
    let sample_rate: u32 = match validate_sample_rate(params.sample_rate_hz) {
        Ok(rate) => rate,
        Err(err) => {
            return Err(err);
        },
    };
    let channels: u32 = match channels {
        Ok(channels) => channels,
        Err(err) => {
            return Err(err);
        },
    };
    let audio_codec = match validate_audio_codec(params.audio_codec) {
        Ok(codec) => codec,
        Err(err) => {
            return Err(err);
        },
    };
    Ok(
        (
            VideoStreamParams {
                width,
                height,
                codec: video_codec,
                preset: params.quality_preset,
                profile: params.video_profile,
            },
            AudioStreamParams { sample_rate, channels, codec: audio_codec },
        ),
    )
}

/// What a client is told of parameters that were turned down.
pub open spec fn validation_failure(err: ValidationErrorView, is_attachment: bool) -> ServerErrorView {
    match err {
        ValidationErrorView::Invalid(text) => ServerErrorView(
            ErrorCode::ErrorProtocol,
            Some(text),
        ),
        ValidationErrorView::NotSupported(text) => ServerErrorView(
            if is_attachment {
                ErrorCode::ErrorAttachmentParamsNotSupported
            } else {
                ErrorCode::ErrorSessionParamsNotSupported
            },
            Some(text),
        ),
    }
}

/// The error for parameters that were turned down.
pub fn validation_error(err: ValidationError, is_attachment: bool) -> (error: ServerError)
    ensures
        error@ == validation_failure(err@, is_attachment),
{
    match err {
        ValidationError::Invalid(text) => ServerError(ErrorCode::ErrorProtocol, Some(text)),
        ValidationError::NotSupported(text) => ServerError(
            if is_attachment {
                ErrorCode::ErrorAttachmentParamsNotSupported
            } else {
                ErrorCode::ErrorSessionParamsNotSupported
            },
            Some(text),
        ),
    }
}

/// What clients are told of a display that passed describes that display: sent
/// back, it passes again and means the same.
pub proof fn sent_display_is_understood(params: Option<VirtualDisplayParameters>)
    requires
        valid_display_params(params) is Ok,
    ensures
        valid_display_params(
            Some(crate::server::protocol::display_message(valid_display_params(params)->Ok_0)),
        ) == valid_display_params(params),
{
}

/// A display that passed has a resolution that video can be encoded in, a
/// supported frame rate, and a scale that is a ratio.
pub proof fn validated_display_is_usable(params: Option<VirtualDisplayParameters>)
    requires
        valid_display_params(params) is Ok,
    ensures
        ({
            let display = valid_display_params(params)->Ok_0;
            &&& display.width > 0 && display.width % 2 == 0
            &&& display.height > 0 && display.height % 2 == 0
            &&& display.framerate == 30 || display.framerate == 60
            &&& display.ui_scale.valid() && display.ui_scale.0 != 0
        }),
{
}

/// A resolution passes if video can be encoded in it, and as it is: width stays
/// width, and height stays height.
pub proof fn resolution_is_kept(size: Size)
    ensures
        valid_resolution(Some(size)) is Ok <==> size.width > 0 && size.height > 0 && size.width % 2
            == 0 && size.height % 2 == 0,
        valid_resolution(Some(size)) matches Ok((width, height)) ==> width == size.width && height
            == size.height,
        valid_resolution(None) is Err,
{
}

/// A display that passes is the one that was asked for; one without a scale is
/// not scaled.
pub proof fn display_is_as_asked_for(params: VirtualDisplayParameters)
    ensures
        valid_display_params(Some(params)) matches Ok(display) ==> {
            &&& params.resolution matches Some(size) && display.width == size.width
                && display.height == size.height
            &&& display.framerate == params.framerate_hz
            &&& params.ui_scale is None ==> display.ui_scale == PixelScale(1, 1)
            &&& params.ui_scale matches Some(scale) ==> crate::pixel_scale::read_scale(scale)
                == Ok::<PixelScale, crate::pixel_scale::InvalidScaleError>(display.ui_scale)
        },
        valid_display_params(Some(params)) is Ok <==> valid_resolution(params.resolution) is Ok && (
        params.framerate_hz == 30 || params.framerate_hz == 60) && (params.ui_scale matches Some(
            scale,
        ) ==> crate::pixel_scale::read_scale(scale) is Ok),
        valid_display_params(None) is Err,
{
}

/// What a client does not choose is chosen for it: H.265, Opus, 48 kHz and two
/// channels. What it does choose it gets.
pub proof fn defaults_are_for_the_undecided(
    video: VideoCodec,
    audio: AudioCodec,
    sample_rate: u32,
)
    ensures
        valid_video_codec(VideoCodecField::Unknown) == Ok::<VideoCodec, ValidationErrorView>(
            VideoCodec::H265,
        ),
        valid_video_codec(VideoCodecField::Codec(video)) == Ok::<VideoCodec, ValidationErrorView>(
            video,
        ),
        valid_video_codec(VideoCodecField::Malformed) is Err,
        valid_video_codec(VideoCodecField::Unsupported) is Err,
        valid_audio_codec(AudioCodecField::Unknown) == Ok::<AudioCodec, ValidationErrorView>(
            AudioCodec::Opus,
        ),
        valid_audio_codec(AudioCodecField::Codec(audio)) == Ok::<AudioCodec, ValidationErrorView>(
            audio,
        ),
        valid_audio_codec(AudioCodecField::Malformed) is Err,
        valid_audio_codec(AudioCodecField::Unsupported) is Err,
        valid_sample_rate(0) == Ok::<u32, ValidationErrorView>(48000),
        valid_sample_rate(sample_rate) matches Ok(rate) ==> 16000 <= rate <= 48000 && (sample_rate
            != 0 ==> rate == sample_rate),
        sample_rate != 0 ==> (valid_sample_rate(sample_rate) is Ok <==> 16000 <= sample_rate
            <= 48000),
        valid_framerate(sample_rate) is Ok <==> sample_rate == 30 || sample_rate == 60,
        valid_framerate(sample_rate) matches Ok(rate) ==> rate == sample_rate,
{
}

/// Sound has two channels: what a client asks for passes if it names two that
/// make sense, or none at all.
pub proof fn sound_is_stereo(
    channels: Option<Vec<Result<(), String>>>,
    result: Result<u32, ValidationErrorView>,
)
    requires
        valid_channels(channels, result),
        channels is Some ==> channels->0@.len() <= u32::MAX,
    ensures
        result matches Ok(n) ==> n == 2,
        result is Ok <==> (channels matches Some(list) ==> list@.len() == 2 && forall|i: int|
            0 <= i < list@.len() ==> #[trigger] list@[i] is Ok),
{
    if let Some(list) = channels {
        if exists|i: int| first_invalid(list@, i) {
            let i = choose|i: int| first_invalid(list@, i);
            assert(list@[i] is Err);
        } else {
            assert forall|i: int| 0 <= i < list@.len() implies #[trigger] list@[i] is Ok by {
                lemma_no_first(list@, i);
            }
        }
    }
}

proof fn lemma_no_first(channels: Seq<Result<(), String>>, i: int)
    requires
        forall|j: int| !first_invalid(channels, j),
        0 <= i < channels.len(),
    ensures
        channels[i] is Ok,
    decreases i,
{
    assert forall|j: int| 0 <= j < i implies #[trigger] channels[j] is Ok by {
        lemma_no_first(channels, j);
    }
    assert(!first_invalid(channels, i));
}

/// An attachment that passes is the one that was asked for.
pub proof fn attachment_is_as_asked_for(
    params: Attach,
    channels: Result<u32, ValidationErrorView>,
)
    ensures
        valid_attachment(params, channels) matches Ok((video, audio)) ==> {
            &&& params.streaming_resolution matches Some(size) && video.width == size.width
                && video.height == size.height
            &&& video.preset == params.quality_preset
            &&& video.profile == params.video_profile
            &&& params.video_codec matches VideoCodecField::Codec(codec) ==> video.codec == codec
            &&& params.audio_codec matches AudioCodecField::Codec(codec) ==> audio.codec == codec
            &&& params.sample_rate_hz != 0 ==> audio.sample_rate == params.sample_rate_hz
            &&& channels == Ok::<u32, ValidationErrorView>(audio.channels)
        },
        valid_attachment(params, channels) is Ok <==> valid_resolution(
            params.streaming_resolution,
        ) is Ok && valid_video_codec(params.video_codec) is Ok && valid_sample_rate(
            params.sample_rate_hz,
        ) is Ok && channels is Ok && valid_audio_codec(params.audio_codec) is Ok,
{
}

/// What makes no sense breaks the protocol; what is only not supported is said to
/// be so, of the attachment or of the session that was asked for.
pub proof fn failures_are_told_apart(err: ValidationErrorView, is_attachment: bool)
    ensures
        ({
            let failure = validation_failure(err, is_attachment);
            &&& failure.0 == ErrorCode::ErrorProtocol <==> err is Invalid
            &&& failure.0 == ErrorCode::ErrorAttachmentParamsNotSupported <==> err is NotSupported
                && is_attachment
            &&& failure.0 == ErrorCode::ErrorSessionParamsNotSupported <==> err is NotSupported
                && !is_attachment
            &&& match err {
                ValidationErrorView::Invalid(text) => failure.1 == Some(text),
                ValidationErrorView::NotSupported(text) => failure.1 == Some(text),
            }
        }),
{
}

} // verus!
