use mmserver::codec::{AudioCodec, VideoCodec, VideoProfile};
use mmserver::pixel_scale::{PixelScale, ProtocolPixelScale};
use mmserver::server::attachment::check_attach;
use mmserver::server::protocol::{
    Attach, AttachmentType, AudioCodecField, ErrorCode, Size, VideoCodecField,
    VirtualDisplayParameters,
};
use mmserver::server::validation::{
    validate_attachment, validate_audio_codec, validate_channels, validate_display_params,
    validate_framerate, validate_resolution, validate_sample_rate, validate_ui_scale,
    validate_video_codec, validation_error, ValidationError,
};

fn invalid<T>(result: Result<T, ValidationError>) -> String {
    match result {
        Err(ValidationError::Invalid(text)) => text,
        _ => panic!("expected an invalid value"),
    }
}

fn unsupported<T>(result: Result<T, ValidationError>) -> String {
    match result {
        Err(ValidationError::NotSupported(text)) => text,
        _ => panic!("expected an unsupported value"),
    }
}

fn size(width: u32, height: u32) -> Option<Size> {
    Some(Size { width, height })
}

fn attach() -> Attach {
    Attach {
        session_id: 1,
        attachment_type: AttachmentType::Operator,
        streaming_resolution: size(1920, 1080),
        video_codec: VideoCodecField::Unknown,
        video_profile: VideoProfile::Hd,
        quality_preset: 6,
        sample_rate_hz: 0,
        channels: None,
        audio_codec: AudioCodecField::Unknown,
    }
}

#[test]
fn resolutions() {
    assert!(matches!(
        validate_resolution(size(1920, 1080)),
        Ok((1920, 1080))
    ));
    for (w, h) in [(0, 1080), (1920, 0), (1921, 1080), (1920, 1081)] {
        assert_eq!(
            invalid(validate_resolution(size(w, h))),
            "resolution must be non-zero and even"
        );
    }
    assert_eq!(invalid(validate_resolution(None)), "resolution missing");
}

#[test]
fn ui_scales() {
    let scale = |numerator, denominator| {
        Some(ProtocolPixelScale {
            numerator,
            denominator,
        })
    };
    assert!(matches!(validate_ui_scale(None), Ok(PixelScale(1, 1))));
    assert!(matches!(
        validate_ui_scale(scale(3, 2)),
        Ok(PixelScale(3, 2))
    ));
    assert_eq!(invalid(validate_ui_scale(scale(0, 2))), "invalid UI scale");
}

#[test]
fn codecs() {
    assert!(matches!(
        validate_video_codec(VideoCodecField::Unknown),
        Ok(VideoCodec::H265)
    ));
    assert!(matches!(
        validate_video_codec(VideoCodecField::Codec(VideoCodec::H264)),
        Ok(VideoCodec::H264)
    ));
    assert_eq!(
        invalid(validate_video_codec(VideoCodecField::Malformed)),
        "invalid video codec"
    );
    assert_eq!(
        invalid(validate_video_codec(VideoCodecField::Unsupported)),
        "invalid video codec"
    );
    assert!(matches!(
        validate_audio_codec(AudioCodecField::Unknown),
        Ok(AudioCodec::Opus)
    ));
    assert_eq!(
        invalid(validate_audio_codec(AudioCodecField::Malformed)),
        "invalid audio codec"
    );
}

#[test]
fn rates() {
    assert!(matches!(validate_framerate(60), Ok(60)));
    assert!(matches!(validate_framerate(30), Ok(30)));
    assert_eq!(unsupported(validate_framerate(59)), "unsupported framerate");
    assert!(matches!(validate_sample_rate(0), Ok(48000)));
    assert!(matches!(validate_sample_rate(16000), Ok(16000)));
    assert!(matches!(validate_sample_rate(48000), Ok(48000)));
    assert_eq!(invalid(validate_sample_rate(15999)), "invalid sample rate");
    assert_eq!(invalid(validate_sample_rate(48001)), "invalid sample rate");
}

#[test]
fn channels() {
    assert!(matches!(validate_channels(&None), Ok(2)));
    assert!(matches!(
        validate_channels(&Some(vec![Ok(()), Ok(())])),
        Ok(2)
    ));
    assert_eq!(
        unsupported(validate_channels(&Some(vec![Ok(())]))),
        "unsupported number of channels"
    );
    assert_eq!(
        invalid(validate_channels(&Some(vec![
            Ok(()),
            Err("unknown enumeration value 9".to_string()),
            Err("unknown enumeration value 10".to_string()),
        ]))),
        "invalid channel: unknown enumeration value 9"
    );
}

#[test]
fn displays() {
    let params = VirtualDisplayParameters {
        resolution: size(1280, 720),
        framerate_hz: 60,
        ui_scale: None,
    };
    let display = match validate_display_params(Some(params)) {
        Ok(display) => display,
        Err(_) => panic!("expected a display"),
    };
    assert_eq!((display.width, display.height), (1280, 720));
    assert_eq!(display.framerate, 60);
    assert_eq!(display.ui_scale, PixelScale(1, 1));
    assert_eq!(
        invalid(validate_display_params(None)),
        "display parameters missing"
    );
    assert_eq!(
        unsupported(validate_display_params(Some(VirtualDisplayParameters {
            framerate_hz: 144,
            ..params
        }))),
        "unsupported framerate"
    );
}

#[test]
fn attachments() {
    match validate_attachment(&attach()) {
        Ok((video, audio)) => {
            assert_eq!((video.width, video.height), (1920, 1080));
            assert_eq!(video.codec, VideoCodec::H265);
            assert_eq!(video.preset, 6);
            assert_eq!(audio.sample_rate, 48000);
            assert_eq!(audio.channels, 2);
            assert_eq!(audio.codec, AudioCodec::Opus);
        }
        Err(_) => panic!("expected parameters"),
    }

    let mut message = attach();
    message.attachment_type = AttachmentType::Other;
    match check_attach(&message) {
        Err(err) => {
            let message = err.into_message();
            assert_eq!(
                message.err_code,
                ErrorCode::ErrorAttachmentParamsNotSupported
            );
            assert_eq!(message.error_text, "unsupported attachment type");
        }
        Ok(_) => panic!("expected error"),
    }

    let mut message = attach();
    message.channels = Some(vec![Ok(())]);
    match check_attach(&message) {
        Err(err) => assert_eq!(err.0, ErrorCode::ErrorAttachmentParamsNotSupported),
        Ok(_) => panic!("expected error"),
    }
}

#[test]
fn errors_for_clients() {
    let err = validation_error(ValidationError::Invalid("x".to_string()), true);
    assert_eq!(err.0, ErrorCode::ErrorProtocol);
    assert_eq!(err.1.as_deref(), Some("x"));
    let err = validation_error(ValidationError::NotSupported("y".to_string()), false);
    assert_eq!(err.0, ErrorCode::ErrorSessionParamsNotSupported);
    let err = validation_error(ValidationError::NotSupported("y".to_string()), true);
    assert_eq!(err.0, ErrorCode::ErrorAttachmentParamsNotSupported);
}
