use opus::ErrorCode::{
    AllocFail, BadArg, BufferTooSmall, InternalError, InvalidPacket, InvalidState, Unimplemented,
    Unknown,
};

fn check_ascii(s: &str) -> &str {
    for &b in s.as_bytes() {
        assert!(b < 0x80, "Non-ASCII character in string");
        assert!(b > 0x00, "NUL in string")
    }
    std::str::from_utf8(s.as_bytes()).unwrap()
}

#[test]
fn strings_ascii() {
    println!("\nVersion: {}", check_ascii(opus::version()));

    let codes = [
        BadArg,
        BufferTooSmall,
        InternalError,
        InvalidPacket,
        Unimplemented,
        InvalidState,
        AllocFail,
        Unknown,
    ];
    for &code in codes.iter() {
        println!("{:?}: {}", code, check_ascii(code.description()));
    }
}

#[test]
fn repacketizer() {
    let mut rp = opus::Repacketizer::new().unwrap();
    let mut out = [0; 256];

    for _ in 0..2 {
        let packet1 = [249, 255, 254, 255, 254];
        let packet2 = [248, 255, 254];

        let mut state = rp.begin();
        state.cat(&packet1).unwrap();
        state.cat(&packet2).unwrap();
        let len = state.out(&mut out).unwrap();
        assert_eq!(&out[..len], &[251, 3, 255, 254, 255, 254, 255, 254]);
    }
    for _ in 0..2 {
        let packet = [248, 255, 254];
        let state = rp.begin().cat_move(&packet).unwrap();
        let packet = [249, 255, 254, 255, 254];
        let state = state.cat_move(&packet).unwrap();
        let len = { state }.out(&mut out).unwrap();
        assert_eq!(&out[..len], &[251, 3, 255, 254, 255, 254, 255, 254]);
    }
    for _ in 0..2 {
        let len = rp
            .combine(&[&[249, 255, 254, 255, 254], &[248, 255, 254]], &mut out)
            .unwrap();
        assert_eq!(&out[..len], &[251, 3, 255, 254, 255, 254, 255, 254]);
    }
    for _ in 0..2 {
        let len = rp
            .begin()
            .cat_move(&[248, 255, 254])
            .unwrap()
            .cat_move(&[248, 71, 71])
            .unwrap()
            .out(&mut out)
            .unwrap();
        assert_eq!(&out[..len], &[249, 255, 254, 71, 71]);
    }
}
