use opus::codec::{
    check_count, check_created, check_sample_rate, encode_capacity, frame_size, frame_size_of,
};
use opus::error::{OPUS_ALLOC_FAIL, OPUS_BAD_ARG, OPUS_OK};
use opus::{Channels, Error, ErrorCode};

#[test]
fn error_codes_classify_native_status() {
    let known = [
        (-1, ErrorCode::BadArg),
        (-2, ErrorCode::BufferTooSmall),
        (-3, ErrorCode::InternalError),
        (-4, ErrorCode::InvalidPacket),
        (-5, ErrorCode::Unimplemented),
        (-6, ErrorCode::InvalidState),
        (-7, ErrorCode::AllocFail),
    ];
    for &(raw, code) in known.iter() {
        assert_eq!(ErrorCode::from_int(raw), code);
        assert_eq!(code.raw(), raw);
    }
    assert_eq!(ErrorCode::from_int(-8), ErrorCode::Unknown);
    assert_eq!(ErrorCode::from_int(-100), ErrorCode::Unknown);
    assert_eq!(ErrorCode::from_int(0), ErrorCode::Unknown);
}

#[test]
fn error_codes_match_engine_constants() {
    assert_eq!(ErrorCode::BadArg.raw(), unsafe_libopus::OPUS_BAD_ARG);
    assert_eq!(ErrorCode::BufferTooSmall.raw(), unsafe_libopus::OPUS_BUFFER_TOO_SMALL);
    assert_eq!(ErrorCode::InternalError.raw(), unsafe_libopus::OPUS_INTERNAL_ERROR);
    assert_eq!(ErrorCode::InvalidPacket.raw(), unsafe_libopus::OPUS_INVALID_PACKET);
    assert_eq!(ErrorCode::Unimplemented.raw(), unsafe_libopus::OPUS_UNIMPLEMENTED);
    assert_eq!(ErrorCode::InvalidState.raw(), unsafe_libopus::OPUS_INVALID_STATE);
    assert_eq!(ErrorCode::AllocFail.raw(), unsafe_libopus::OPUS_ALLOC_FAIL);
}

#[test]
fn descriptions_come_from_the_engine() {
    assert_eq!(ErrorCode::BadArg.description(), "invalid argument (-1)");
    assert_eq!(ErrorCode::AllocFail.description(), "memory allocation failed (-7)");
    assert_eq!(ErrorCode::Unknown.description(), "unknown error");
    let e = Error::from_code("opus_encode", -2);
    assert_eq!(e.description(), "buffer too small (-2)");
    assert_eq!(e.description(), unsafe_libopus::opus_strerror(-2));
}

#[test]
fn error_carries_function_and_code() {
    let e = Error::from_code("opus_decode", -4);
    assert_eq!(e.function(), "opus_decode");
    assert_eq!(e.code(), ErrorCode::InvalidPacket);
    assert_eq!(e.request(), None);
    let e = Error::from_request("opus_encoder_ctl", "OPUS_SET_BITRATE_REQUEST", -1);
    assert_eq!(e.function(), "opus_encoder_ctl");
    assert_eq!(e.request(), Some("OPUS_SET_BITRATE_REQUEST"));
    assert_eq!(e.code(), ErrorCode::BadArg);
    let e = e.with_function("opus_packet_pad");
    assert_eq!(e.function(), "opus_packet_pad");
    assert_eq!(e.code(), ErrorCode::BadArg);
}

#[test]
fn version_is_printable() {
    let v = opus::version();
    assert!(!v.is_empty());
    assert_eq!(v, unsafe_libopus::opus_get_version_string());
    assert!(v.bytes().all(|b| (0x20..0x7f).contains(&b)));
}

#[test]
fn unsupported_sample_rate_is_bad_arg() {
    for &rate in [8000u32, 12000, 16000, 24000, 48000].iter() {
        assert_eq!(check_sample_rate("opus_encoder_create", rate).unwrap(), rate as i32);
    }
    for &rate in [0u32, 44100, 48001, 96000].iter() {
        let e = check_sample_rate("opus_encoder_create", rate).unwrap_err();
        assert_eq!(e.code(), ErrorCode::BadArg);
        assert_eq!(e.function(), "opus_encoder_create");
    }
}

#[test]
fn creation_outcome() {
    assert!(check_created("opus_decoder_create", OPUS_OK, true).is_ok());
    let e = check_created("opus_decoder_create", OPUS_BAD_ARG, false).unwrap_err();
    assert_eq!(e.code(), ErrorCode::BadArg);
    let e = check_created("opus_decoder_create", OPUS_OK, false).unwrap_err();
    assert_eq!(e.code(), ErrorCode::AllocFail);
    let e = check_created("opus_decoder_create", OPUS_ALLOC_FAIL, true).unwrap_err();
    assert_eq!(e.code(), ErrorCode::AllocFail);
}

#[test]
fn counts_and_failures() {
    assert_eq!(check_count("opus_encode", 3).unwrap(), 3);
    assert_eq!(check_count("opus_encode", 0).unwrap(), 0);
    let e = check_count("opus_encode", -2).unwrap_err();
    assert_eq!(e.code(), ErrorCode::BufferTooSmall);
    assert_eq!(e.function(), "opus_encode");
}

#[test]
fn zero_length_output_is_bad_arg() {
    let e = encode_capacity("opus_encode", 0).unwrap_err();
    assert_eq!(e.code(), ErrorCode::BadArg);
    assert_eq!(encode_capacity("opus_encode", 256).unwrap(), 256);
}

#[test]
fn frame_size_per_channel() {
    assert_eq!(frame_size(960, Channels::Mono), 960);
    assert_eq!(frame_size(1920, Channels::Stereo), 960);
    assert_eq!(frame_size(1921, Channels::Stereo), 960);
    assert_eq!(frame_size(0, Channels::Stereo), 0);
    assert_eq!(frame_size_of(5760, 6), 960);
    assert_eq!(frame_size_of(5, 6), 0);
}

#[test]
fn length_guard() {
    assert_eq!(opus::length::check_len(0), 0);
    assert_eq!(opus::length::check_len(2147483647), i32::MAX);
}
