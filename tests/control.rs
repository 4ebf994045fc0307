use opus::ctl::{finish_get, finish_request, finish_set, HandleKind, Param, Reply, Setting, OPUS_RESET_STATE};
use unsafe_libopus as ffi;
use opus::{Application, Bandwidth, Bitrate, Channels, ErrorCode, FrameSize, Signal};

fn round_trip(kind: HandleKind, setting: Setting) -> Reply {
    finish_get(kind, setting.param(), 0, setting.payload()).unwrap()
}

#[test]
fn set_then_get_gives_the_value_back() {
    let k = HandleKind::Encoder;
    assert_eq!(round_trip(k, Setting::Bitrate(Bitrate::Auto)), Reply::Bitrate(Bitrate::Auto));
    assert_eq!(round_trip(k, Setting::Bitrate(Bitrate::Max)), Reply::Bitrate(Bitrate::Max));
    assert_eq!(
        round_trip(k, Setting::Bitrate(Bitrate::Bits(64000))),
        Reply::Bitrate(Bitrate::Bits(64000))
    );
    assert_eq!(round_trip(k, Setting::ForceChannels(None)), Reply::ForceChannels(None));
    assert_eq!(
        round_trip(k, Setting::ForceChannels(Some(Channels::Stereo))),
        Reply::ForceChannels(Some(Channels::Stereo))
    );
    assert_eq!(
        round_trip(k, Setting::MaxBandwidth(Bandwidth::Auto)),
        Reply::Bandwidth(Bandwidth::Auto)
    );
    assert_eq!(
        round_trip(k, Setting::Bandwidth(Bandwidth::Wideband)),
        Reply::Bandwidth(Bandwidth::Wideband)
    );
    assert_eq!(round_trip(k, Setting::Signal(Signal::Music)), Reply::Signal(Signal::Music));
    assert_eq!(
        round_trip(k, Setting::Application(Application::LowDelay)),
        Reply::Application(Application::LowDelay)
    );
    assert_eq!(
        round_trip(k, Setting::ExpertFrameDuration(FrameSize::Ms2_5)),
        Reply::FrameSize(FrameSize::Ms2_5)
    );
    assert_eq!(round_trip(k, Setting::Vbr(false)), Reply::Bool(false));
    assert_eq!(round_trip(k, Setting::Dtx(true)), Reply::Bool(true));
    assert_eq!(round_trip(k, Setting::Complexity(7)), Reply::Int(7));
    assert_eq!(round_trip(HandleKind::Decoder, Setting::Gain(-256)), Reply::Int(-256));
}

#[test]
fn payloads_are_the_raw_protocol_values() {
    assert_eq!(Setting::Bitrate(Bitrate::Auto).payload(), -1000);
    assert_eq!(Setting::Bitrate(Bitrate::Max).payload(), -1);
    assert_eq!(Setting::ForceChannels(None).payload(), -1000);
    assert_eq!(Setting::ForceChannels(Some(Channels::Mono)).payload(), 1);
    assert_eq!(Setting::Vbr(true).payload(), 1);
    assert_eq!(Setting::Application(Application::Audio).payload(), 2049);
    assert_eq!(Setting::Bandwidth(Bandwidth::Fullband).payload(), 1105);
    assert_eq!(Setting::ExpertFrameDuration(FrameSize::Ms120).payload(), 5009);
    assert_eq!(Setting::Signal(Signal::Voice).payload(), 3001);
}

#[test]
fn request_numbers_match_engine_constants() {
    assert_eq!(Setting::Bitrate(Bitrate::Max).request(), ffi::OPUS_SET_BITRATE_REQUEST);
    assert_eq!(Param::Bitrate.get_request(), ffi::OPUS_GET_BITRATE_REQUEST);
    assert_eq!(Param::Gain.get_request(), ffi::OPUS_GET_GAIN_REQUEST);
    assert_eq!(Setting::Gain(0).request(), ffi::OPUS_SET_GAIN_REQUEST);
    assert_eq!(Param::InDtx.get_request(), ffi::OPUS_GET_IN_DTX_REQUEST);
    assert_eq!(Param::FinalRange.get_request(), ffi::OPUS_GET_FINAL_RANGE_REQUEST);
    assert_eq!(
        Setting::PhaseInversionDisabled(true).request(),
        ffi::OPUS_SET_PHASE_INVERSION_DISABLED_REQUEST
    );
    assert_eq!(OPUS_RESET_STATE, ffi::OPUS_RESET_STATE);
    assert_eq!(Bandwidth::Fullband.raw(), ffi::OPUS_BANDWIDTH_FULLBAND);
    assert_eq!(Signal::Auto.raw(), ffi::OPUS_AUTO);
    assert_eq!(FrameSize::Arg.raw(), ffi::OPUS_FRAMESIZE_ARG);
    assert_eq!(Application::LowDelay.raw(), ffi::OPUS_APPLICATION_RESTRICTED_LOWDELAY);
    assert_eq!(Bitrate::Max.raw(), ffi::OPUS_BITRATE_MAX);
}

#[test]
fn unknown_raw_values_are_bad_arg() {
    for &(param, raw) in [
        (Param::Bandwidth, 1100),
        (Param::MaxBandwidth, 0),
        (Param::Application, 2050),
        (Param::Signal, 3003),
        (Param::ExpertFrameDuration, 5010),
        (Param::ForceChannels, 3),
    ]
    .iter()
    {
        let e = finish_get(HandleKind::Encoder, param, 0, raw).unwrap_err();
        assert_eq!(e.code(), ErrorCode::BadArg);
        assert_eq!(e.function(), "opus_encoder_ctl");
        assert!(e.request().is_some());
    }
    assert!(Bandwidth::decode(1106, "what").is_err());
    assert_eq!(Bandwidth::decode(1106, "what").unwrap_err().function(), "what");
    assert!(Signal::from_raw(0, "what").is_err());
    assert!(FrameSize::from_raw(4999, "what").is_err());
    assert!(Application::from_raw(2052, "what").is_err());
    assert_eq!(Bitrate::from_raw(12345).unwrap(), Bitrate::Bits(12345));
}

#[test]
fn negative_status_fails_the_request() {
    let e = finish_get(HandleKind::MSDecoder, Param::Gain, -5, 0).unwrap_err();
    assert_eq!(e.code(), ErrorCode::Unimplemented);
    assert_eq!(e.function(), "opus_multistream_decoder_ctl");
    assert_eq!(e.request(), Some("OPUS_GET_GAIN_REQUEST"));
    let e = finish_set(HandleKind::Encoder, Setting::Complexity(11), -1).unwrap_err();
    assert_eq!(e.code(), ErrorCode::BadArg);
    assert_eq!(e.request(), Some("OPUS_SET_COMPLEXITY_REQUEST"));
    assert!(finish_set(HandleKind::Encoder, Setting::Complexity(10), 0).is_ok());
    let e = finish_request(HandleKind::Decoder, "OPUS_RESET_STATE", -6).unwrap_err();
    assert_eq!(e.code(), ErrorCode::InvalidState);
    assert!(finish_request(HandleKind::Decoder, "OPUS_RESET_STATE", 0).is_ok());
}

#[test]
fn unsigned_and_flag_replies() {
    assert_eq!(
        finish_get(HandleKind::Decoder, Param::SampleRate, 0, 48000).unwrap(),
        Reply::Unsigned(48000)
    );
    assert_eq!(
        finish_get(HandleKind::Encoder, Param::FinalRange, 0, -1).unwrap(),
        Reply::Unsigned(u32::MAX)
    );
    assert_eq!(
        finish_get(HandleKind::Encoder, Param::InDtx, 0, 5).unwrap(),
        Reply::Bool(true)
    );
}

#[test]
fn defaults() {
    assert_eq!(Bandwidth::default(), Bandwidth::Auto);
    assert_eq!(Signal::default(), Signal::Auto);
    assert_eq!(FrameSize::default(), FrameSize::Arg);
}
