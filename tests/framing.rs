use opus::packet::{
    get_bandwidth, get_nb_channels, get_nb_frames, get_nb_samples, get_samples_per_frame, pad,
    parse, unpad,
};
use opus::{Bandwidth, Channels, ErrorCode, Repacketizer};

#[test]
fn toc_queries() {
    let silence = [248u8, 255, 254];
    assert_eq!(get_bandwidth(&silence).unwrap(), Bandwidth::Fullband);
    assert_eq!(get_nb_channels(&silence).unwrap(), Channels::Mono);
    assert_eq!(get_nb_channels(&[252u8, 255, 254]).unwrap(), Channels::Stereo);
    assert_eq!(get_nb_frames(&silence).unwrap(), 1);
    assert_eq!(get_nb_frames(&[249u8, 255, 254, 255, 254]).unwrap(), 2);
    assert_eq!(get_nb_frames(&[251u8, 3, 255, 254]).unwrap(), 3);
    assert_eq!(get_samples_per_frame(&silence, 48000).unwrap(), 960);
    assert_eq!(get_nb_samples(&silence, 48000).unwrap(), 960);
    assert_eq!(get_nb_samples(&[253u8, 255, 254, 255, 254], 48000).unwrap(), 1920);
}

#[test]
fn toc_bandwidth_table() {
    assert_eq!(get_bandwidth(&[0u8]).unwrap(), Bandwidth::Narrowband);
    assert_eq!(get_bandwidth(&[4 * 8u8]).unwrap(), Bandwidth::Mediumband);
    assert_eq!(get_bandwidth(&[8 * 8u8]).unwrap(), Bandwidth::Wideband);
    assert_eq!(get_bandwidth(&[12 * 8u8]).unwrap(), Bandwidth::Superwideband);
    assert_eq!(get_bandwidth(&[14 * 8u8]).unwrap(), Bandwidth::Fullband);
    assert_eq!(get_bandwidth(&[16 * 8u8]).unwrap(), Bandwidth::Narrowband);
    assert_eq!(get_bandwidth(&[20 * 8u8]).unwrap(), Bandwidth::Wideband);
    assert_eq!(get_bandwidth(&[24 * 8u8]).unwrap(), Bandwidth::Superwideband);
    assert_eq!(get_samples_per_frame(&[3 * 8u8], 48000).unwrap(), 2880);
    assert_eq!(get_samples_per_frame(&[16 * 8u8], 48000).unwrap(), 120);
    assert_eq!(get_samples_per_frame(&[13 * 8u8], 16000).unwrap(), 320);
}

#[test]
fn empty_packet_queries_fail() {
    let empty: [u8; 0] = [];
    assert_eq!(get_bandwidth(&empty).unwrap_err().code(), ErrorCode::BadArg);
    assert_eq!(get_nb_channels(&empty).unwrap_err().code(), ErrorCode::BadArg);
    assert_eq!(get_nb_frames(&empty).unwrap_err().code(), ErrorCode::BadArg);
    assert_eq!(get_samples_per_frame(&empty, 48000).unwrap_err().code(), ErrorCode::BadArg);
    assert_eq!(get_nb_samples(&empty, 48000).unwrap_err().code(), ErrorCode::BadArg);
    assert_eq!(get_nb_frames(&[251u8]).unwrap_err().code(), ErrorCode::InvalidPacket);
}

#[test]
fn too_long_packet_is_invalid() {
    // 48 frames of 20 ms is far beyond 120 ms.
    let e = get_nb_samples(&[251u8, 48], 48000).unwrap_err();
    assert_eq!(e.code(), ErrorCode::InvalidPacket);
}

#[test]
fn parse_constant_bitrate_frames() {
    let p = [251u8, 3, 255, 254, 255, 254, 255, 254];
    let pk = parse(&p).unwrap();
    assert_eq!(pk.toc, 251);
    assert_eq!(pk.payload_offset, 2);
    assert_eq!(pk.frames.len(), 3);
    for f in pk.frames.iter() {
        assert_eq!(*f, &[255u8, 254][..]);
    }
}

#[test]
fn parse_variable_bitrate_and_padding() {
    let p = [251u8, 0x82, 1, 7, 8, 9];
    let pk = parse(&p).unwrap();
    assert_eq!(pk.payload_offset, 3);
    assert_eq!(pk.frames, vec![&[7u8][..], &[8u8, 9][..]]);

    let p = [251u8, 0x41, 2, 7, 0, 0];
    let pk = parse(&p).unwrap();
    assert_eq!(pk.payload_offset, 3);
    assert_eq!(pk.frames, vec![&[7u8][..]]);

    let p = [250u8, 2, 1, 2, 3, 4];
    let pk = parse(&p).unwrap();
    assert_eq!(pk.payload_offset, 2);
    assert_eq!(pk.frames, vec![&[1u8, 2][..], &[3u8, 4][..]]);
}

#[test]
fn parse_rejects_malformed_packets() {
    let bad: [&[u8]; 5] = [&[], &[249, 1, 2, 3], &[250, 9, 1], &[251, 0], &[251, 0x82, 9, 1]];
    for p in bad.iter() {
        let e = parse(p).unwrap_err();
        assert_eq!(e.code(), ErrorCode::InvalidPacket);
        assert_eq!(e.function(), "opus_packet_parse");
    }
}

#[test]
fn pad_and_unpad() {
    let mut buf = [248u8, 255, 254, 0, 0, 0, 0, 0];
    assert_eq!(pad(&mut buf, 3).unwrap(), 0);
    assert_eq!(buf, [251, 65, 3, 255, 254, 0, 0, 0]);
    assert_eq!(get_nb_frames(&buf).unwrap(), 1);
    assert_eq!(parse(&buf).unwrap().frames, vec![&[255u8, 254][..]]);
    let n = unpad(&mut buf).unwrap();
    assert_eq!(&buf[..n], &[248, 255, 254]);
}

#[test]
fn pad_edge_cases() {
    let mut buf = [248u8, 255, 254];
    assert_eq!(pad(&mut buf, 3).unwrap(), 0);
    assert_eq!(buf, [248, 255, 254]);
    assert_eq!(pad(&mut buf, 0).unwrap_err().code(), ErrorCode::BadArg);
    assert_eq!(pad(&mut buf, 4).unwrap_err().code(), ErrorCode::BadArg);
    let mut bad = [249u8, 1, 2, 3, 0];
    assert_eq!(pad(&mut bad, 4).unwrap_err().code(), ErrorCode::InvalidPacket);
    assert_eq!(bad, [249, 1, 2, 3, 0]);
    let mut empty: [u8; 0] = [];
    assert_eq!(unpad(&mut empty).unwrap_err().code(), ErrorCode::BadArg);
}

#[test]
fn pad_long_padding_uses_continuation_bytes() {
    let mut buf = vec![0u8; 300];
    buf[0] = 248;
    buf[1] = 7;
    pad(&mut buf, 2).unwrap();
    // 300 bytes: two header bytes, one frame byte and 297 bytes of padding,
    // whose length takes a byte of 255 and a byte of 41.
    assert_eq!(&buf[..6], &[251, 65, 255, 41, 7, 0]);
    assert!(buf[5..].iter().all(|&b| b == 0));
    let pk = parse(&buf).unwrap();
    assert_eq!(pk.frames, vec![&[7u8][..]]);
    let n = unpad(&mut buf).unwrap();
    assert_eq!(&buf[..n], &[248, 7]);
}

#[test]
fn split_and_recombine_is_identical() {
    let mut rp = Repacketizer::new().unwrap();
    let mut combined = [0u8; 64];
    let n = rp
        .combine(&[&[249, 255, 254, 255, 254], &[248, 255, 254]], &mut combined)
        .unwrap();
    let combined = combined[..n].to_vec();

    let mut first = [0u8; 64];
    let mut second = [0u8; 64];
    let (n1, n2) = {
        let mut state = rp.begin();
        state.cat(&combined).unwrap();
        assert_eq!(state.get_nb_frames(), 3);
        let n1 = state.out_range(0, 2, &mut first).unwrap();
        let n2 = state.out_range(2, 3, &mut second).unwrap();
        (n1, n2)
    };
    assert_eq!(&first[..n1], &[249, 255, 254, 255, 254]);
    assert_eq!(&second[..n2], &[248, 255, 254]);

    let mut again = [0u8; 64];
    let m = rp.combine(&[&first[..n1], &second[..n2]], &mut again).unwrap();
    assert_eq!(&again[..m], &combined[..]);
}

#[test]
fn frame_counts_add_up() {
    let p1 = [249u8, 255, 254, 255, 254];
    let p2 = [251u8, 3, 1, 2, 3];
    let mut rp = Repacketizer::new().unwrap();
    let mut state = rp.begin();
    state.cat(&p1).unwrap();
    state.cat(&p2).unwrap();
    assert_eq!(
        state.get_nb_frames(),
        get_nb_frames(&p1).unwrap() + get_nb_frames(&p2).unwrap()
    );
}

#[test]
fn repacketizer_failures() {
    let mut rp = Repacketizer::new().unwrap();
    let mut out = [0u8; 4];
    let mut state = rp.begin();
    assert_eq!(state.out(&mut out).unwrap_err().code(), ErrorCode::BadArg);
    state.cat(&[248, 1, 2]).unwrap();
    let e = state.cat(&[0, 1, 2]).unwrap_err();
    assert_eq!(e.code(), ErrorCode::InvalidPacket);
    assert_eq!(e.function(), "opus_repacketizer_cat");
    assert_eq!(state.cat(&[]).unwrap_err().code(), ErrorCode::InvalidPacket);
    assert_eq!(state.get_nb_frames(), 1);
    assert_eq!(state.out_range(1, 1, &mut out).unwrap_err().code(), ErrorCode::BadArg);
    assert_eq!(state.out_range(0, 2, &mut out).unwrap_err().code(), ErrorCode::BadArg);
    state.cat(&[248, 3, 4, 5]).unwrap();
    let e = state.out(&mut out).unwrap_err();
    assert_eq!(e.code(), ErrorCode::BufferTooSmall);
    assert_eq!(e.function(), "opus_repacketizer_out");
    assert_eq!(out, [0, 0, 0, 0]);
    let mut big = [0u8; 8];
    let n = state.out(&mut big).unwrap();
    assert_eq!(&big[..n], &[250, 2, 1, 2, 3, 4, 5]);
}

#[test]
fn too_much_audio_cannot_join() {
    let mut rp = Repacketizer::new().unwrap();
    let mut state = rp.begin();
    // Six frames of 20 ms make 120 ms; a seventh would exceed it.
    for _ in 0..6 {
        state.cat(&[248, 1]).unwrap();
    }
    assert_eq!(state.cat(&[248, 1]).unwrap_err().code(), ErrorCode::InvalidPacket);
    assert_eq!(state.get_nb_frames(), 6);
}
