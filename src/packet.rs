use vstd::prelude::*;
use vstd::slice::slice_subrange;
use crate::error::{
    error_code_of, Error, ErrorCode, OPUS_BAD_ARG, OPUS_INVALID_PACKET,
};
use crate::length::MAX_NATIVE_LEN;
use crate::types::{Bandwidth, Channels};

pub use crate::repacketizer::{pad, unpad};

verus! {

/// The largest number of frames that one packet holds.
pub const MAX_FRAMES: usize = 48;

/// The largest size of one frame, in bytes.
pub const MAX_FRAME_BYTES: usize = 1275;

/// The configuration number of a table-of-contents byte: the mode, the
/// bandwidth and the frame duration together.
pub open spec fn toc_config(toc: u8) -> int {
    toc as int / 8
}

/// The frame count code of a table-of-contents byte.
pub open spec fn toc_code(toc: u8) -> int {
    toc as int % 4
}

/// Whether a table-of-contents byte announces stereo.
pub open spec fn toc_stereo(toc: u8) -> bool {
    (toc as int / 4) % 2 == 1
}

/// The bandwidth that a table-of-contents byte announces.
pub open spec fn toc_bandwidth(toc: u8) -> Bandwidth {
    let c = toc_config(toc);
    if c < 4 {
        Bandwidth::Narrowband
    } else if c < 8 {
        Bandwidth::Mediumband
    } else if c < 12 {
        Bandwidth::Wideband
    } else if c < 14 {
        Bandwidth::Superwideband
    } else if c < 16 {
        Bandwidth::Fullband
    } else if c < 20 {
        Bandwidth::Narrowband
    } else if c < 24 {
        Bandwidth::Wideband
    } else if c < 28 {
        Bandwidth::Superwideband
    } else {
        Bandwidth::Fullband
    }
}

/// The number of samples per channel in one frame, at `fs` samples per
/// second: 10, 20, 40 or 60 ms for the linear-prediction configurations,
/// 10 or 20 ms for the hybrid ones, 2.5, 5, 10 or 20 ms for the
/// transform ones.
pub open spec fn toc_samples_per_frame(toc: u8, fs: int) -> int {
    let c = toc_config(toc);
    let d = c % 4;
    if c >= 16 {
        if d == 0 {
            fs / 400
        } else if d == 1 {
            2 * fs / 400
        } else if d == 2 {
            4 * fs / 400
        } else {
            8 * fs / 400
        }
    } else if c >= 12 {
        if c % 2 == 1 {
            fs / 50
        } else {
            fs / 100
        }
    } else {
        if d == 0 {
            fs / 100
        } else if d == 1 {
            2 * fs / 100
        } else if d == 2 {
            4 * fs / 100
        } else {
            fs * 60 / 1000
        }
    }
}

/// The number of frames in a packet, or the raw status of the failure.
pub open spec fn spec_nb_frames(p: Seq<u8>) -> Result<int, i32> {
    if p.len() < 1 {
        Err(OPUS_BAD_ARG)
    } else if toc_code(p[0]) == 0 {
        Ok(1)
    } else if toc_code(p[0]) != 3 {
        Ok(2)
    } else if p.len() < 2 {
        Err(OPUS_INVALID_PACKET)
    } else {
        Ok(p[1] as int % 64)
    }
}

/// The number of samples per channel in a packet at `fs` samples per second,
/// or the raw status of the failure: more than 120 ms of audio is invalid.
pub open spec fn spec_nb_samples(p: Seq<u8>, fs: int) -> Result<int, i32> {
    match spec_nb_frames(p) {
        Err(c) => Err(c),
        Ok(n) => {
            let samples = n * toc_samples_per_frame(p[0], fs);
            if samples * 25 > fs * 3 {
                Err(OPUS_INVALID_PACKET)
            } else {
                Ok(samples)
            }
        },
    }
}

/// The configuration number of a table-of-contents byte.
fn config_of(toc: u8) -> (r: u8)
    ensures
        r as int == toc_config(toc),
        r < 32,
{
    toc / 8
}

/// The number of samples per channel in one frame, at `fs` samples per second.
pub(crate) fn samples_per_frame_at(toc: u8, fs: u32) -> (r: u64)
    ensures
        r as int == toc_samples_per_frame(toc, fs as int),
        fs as int / 400 <= r as int <= fs as int,
{
    let c = config_of(toc);
    let d = c % 4;
    let f = fs as u64;
    if c >= 16 {
        if d == 0 {
            f / 400
        } else if d == 1 {
            2 * f / 400
        } else if d == 2 {
            4 * f / 400
        } else {
            8 * f / 400
        }
    } else if c >= 12 {
        if c % 2 == 1 {
            f / 50
        } else {
            f / 100
        }
    } else {
        if d == 0 {
            f / 100
        } else if d == 1 {
            2 * f / 100
        } else if d == 2 {
            4 * f / 100
        } else {
            f * 60 / 1000
        }
    }
}

/// Get the bandwidth of an Opus packet.
pub fn get_bandwidth(packet: &[u8]) -> (r: Result<Bandwidth, Error>)
    ensures
        packet@.len() == 0 ==> r is Err && r->Err_0.spec_code() == ErrorCode::BadArg
            && r->Err_0.spec_function() == "opus_packet_get_bandwidth"@,
        packet@.len() > 0 ==> r == Ok::<Bandwidth, Error>(toc_bandwidth(packet@[0])),
{
    if packet.len() == 0 {
        return Err(Error::bad_arg("opus_packet_get_bandwidth"));
    }
    let c = config_of(packet[0]);
    Ok(
        if c < 4 {
            Bandwidth::Narrowband
        } else if c < 8 {
            Bandwidth::Mediumband
        } else if c < 12 {
            Bandwidth::Wideband
        } else if c < 14 {
            Bandwidth::Superwideband
        } else if c < 16 {
            Bandwidth::Fullband
        } else if c < 20 {
            Bandwidth::Narrowband
        } else if c < 24 {
            Bandwidth::Wideband
        } else if c < 28 {
            Bandwidth::Superwideband
        } else {
            Bandwidth::Fullband
        },
    )
}

/// Get the number of channels from an Opus packet.
pub fn get_nb_channels(packet: &[u8]) -> (r: Result<Channels, Error>)
    ensures
        packet@.len() == 0 ==> r is Err && r->Err_0.spec_code() == ErrorCode::BadArg
            && r->Err_0.spec_function() == "opus_packet_get_nb_channels"@,
        packet@.len() > 0 && toc_stereo(packet@[0]) ==> r == Ok::<Channels, Error>(
            Channels::Stereo,
        ),
        packet@.len() > 0 && !toc_stereo(packet@[0]) ==> r == Ok::<Channels, Error>(
            Channels::Mono,
        ),
{
    if packet.len() == 0 {
        return Err(Error::bad_arg("opus_packet_get_nb_channels"));
    }
    if (packet[0] / 4) % 2 == 1 {
        Ok(Channels::Stereo)
    } else {
        Ok(Channels::Mono)
    }
}

/// The number of frames in a packet, or the raw status of the failure.
fn nb_frames(packet: &[u8]) -> (r: Result<usize, i32>)
    ensures
        match spec_nb_frames(packet@) {
            Ok(n) => r == Ok::<usize, i32>(n as usize),
            Err(c) => r == Err::<usize, i32>(c),
        },
        r is Ok ==> r->Ok_0 < 64,
{
    if packet.len() < 1 {
        return Err(OPUS_BAD_ARG);
    }
    let code = packet[0] % 4;
    if code == 0 {
        Ok(1)
    } else if code != 3 {
        Ok(2)
    } else if packet.len() < 2 {
        Err(OPUS_INVALID_PACKET)
    } else {
        Ok((packet[1] % 64) as usize)
    }
}

/// Get the number of frames in an Opus packet.
pub fn get_nb_frames(packet: &[u8]) -> (r: Result<usize, Error>)
    requires
        packet@.len() <= MAX_NATIVE_LEN,
    ensures
        match spec_nb_frames(packet@) {
            Ok(n) => r == Ok::<usize, Error>(n as usize),
            Err(c) => r is Err && r->Err_0.spec_code() == error_code_of(c)
                && r->Err_0.spec_function() == "opus_packet_get_nb_frames"@,
        },
{
    match nb_frames(packet) {
        Ok(n) => Ok(n),
        Err(c) => Err(Error::from_code("opus_packet_get_nb_frames", c)),
    }
}

/// Get the number of samples of an Opus packet.
pub fn get_nb_samples(packet: &[u8], sample_rate: u32) -> (r: Result<usize, Error>)
    requires
        packet@.len() <= MAX_NATIVE_LEN,
    ensures
        match spec_nb_samples(packet@, sample_rate as int) {
            Ok(n) => r == Ok::<usize, Error>(n as usize),
            Err(c) => r is Err && r->Err_0.spec_code() == error_code_of(c)
                && r->Err_0.spec_function() == "opus_packet_get_nb_samples"@,
        },
{
    match nb_frames(packet) {
        Err(c) => Err(Error::from_code("opus_packet_get_nb_samples", c)),
        Ok(n) => {
            let spf = samples_per_frame_at(packet[0], sample_rate);
            let fs = sample_rate as u64;
            assert(n as int * spf as int <= 64 * (fs as int)) by (nonlinear_arith)
                requires
                    n < 64,
                    spf as int <= fs as int,
            ;
            let samples = n as u64 * spf;
            if samples * 25 > fs * 3 {
                Err(Error::from_code("opus_packet_get_nb_samples", OPUS_INVALID_PACKET))
            } else {
                Ok(samples as usize)
            }
        },
    }
}

/// Get the number of samples per frame from an Opus packet.
pub fn get_samples_per_frame(packet: &[u8], sample_rate: u32) -> (r: Result<usize, Error>)
    ensures
        packet@.len() == 0 ==> r is Err && r->Err_0.spec_code() == ErrorCode::BadArg
            && r->Err_0.spec_function() == "opus_packet_get_samples_per_frame"@,
        packet@.len() > 0 ==> r == Ok::<usize, Error>(
            toc_samples_per_frame(packet@[0], sample_rate as int) as usize,
        ),
{
    if packet.len() == 0 {
        return Err(Error::bad_arg("opus_packet_get_samples_per_frame"));
    }
    Ok(samples_per_frame_at(packet[0], sample_rate) as usize)
}

/// The sum of a sequence of sizes.
pub open spec fn sum(s: Seq<int>) -> int
    decreases s.len(),
{
    if s.len() == 0 {
        0
    } else {
        sum(s.drop_last()) + s.last()
    }
}

/// A frame length field at position `i`, with `rem` bytes left: one byte
/// below 252, else two bytes; gives the length and the bytes it took.
pub open spec fn spec_size_field(p: Seq<u8>, i: int, rem: int) -> Option<(int, int)> {
    if rem < 1 {
        None
    } else if p[i] < 252 {
        Some((p[i] as int, 1))
    } else if rem < 2 {
        None
    } else {
        Some((4 * p[i + 1] as int + p[i] as int, 2))
    }
}

/// The padding length bytes that start at `i`, with `rem` bytes left:
/// each byte of 255 adds 254 bytes of padding and is followed by another,
/// any other byte adds its own value and ends the run. Gives the position
/// after the run and the bytes left once the padding is taken off.
pub open spec fn spec_padding(p: Seq<u8>, i: int, rem: int) -> Option<(int, int)>
    decreases p.len() - i,
{
    if rem <= 0 || i >= p.len() || i < 0 {
        None
    } else {
        let b = p[i];
        let rem2 = rem - 1 - (if b == 255 {
            254
        } else {
            b as int
        });
        if b == 255 {
            spec_padding(p, i + 1, rem2)
        } else {
            Some((i + 1, rem2))
        }
    }
}

/// The `k` length fields of a variable-bitrate packet that start at `i`,
/// with `rem` header bytes left and `last` bytes left for the last frame.
pub open spec fn spec_vbr_sizes(p: Seq<u8>, i: int, k: int, rem: int, last: int) -> Option<
    (Seq<int>, int, int, int),
>
    decreases k,
{
    if k <= 0 {
        Some((Seq::<int>::empty(), i, rem, last))
    } else {
        match spec_size_field(p, i, rem) {
            None => None,
            Some((s, b)) => {
                if s > rem - b {
                    None
                } else {
                    match spec_vbr_sizes(p, i + b, k - 1, rem - b, last - b - s) {
                        None => None,
                        Some((rest, i2, r2, l2)) => Some((seq![s] + rest, i2, r2, l2)),
                    }
                }
            },
        }
    }
}

/// The frame sizes and payload offset of a packet, if it is well formed.
/// Its table-of-contents byte is the first byte.
pub open spec fn spec_parse(p: Seq<u8>) -> Option<(Seq<int>, int)> {
    if p.len() == 0 {
        None
    } else {
        let toc = p[0];
        let len = p.len() - 1;
        if toc_code(toc) == 0 {
            if len > MAX_FRAME_BYTES {
                None
            } else {
                Some((seq![len], 1))
            }
        } else if toc_code(toc) == 1 {
            if len % 2 == 1 || len / 2 > MAX_FRAME_BYTES {
                None
            } else {
                Some((seq![len / 2, len / 2], 1))
            }
        } else if toc_code(toc) == 2 {
            match spec_size_field(p, 1, len) {
                None => None,
                Some((s, b)) => {
                    if s > len - b || len - b - s > MAX_FRAME_BYTES {
                        None
                    } else {
                        Some((seq![s, len - b - s], 1 + b))
                    }
                },
            }
        } else {
            spec_parse_code3(p)
        }
    }
}

/// The frame sizes and payload offset of a packet that holds an arbitrary
/// number of frames, if it is well formed.
pub open spec fn spec_parse_code3(p: Seq<u8>) -> Option<(Seq<int>, int)> {
    let len = p.len() - 1;
    if len < 1 {
        None
    } else {
        let ch = p[1];
        let count = ch as int % 64;
        if count <= 0 || toc_samples_per_frame(p[0], 48000) * count > 5760 {
            None
        } else {
            let padded = if (ch as int / 64) % 2 == 1 {
                spec_padding(p, 2, len - 1)
            } else {
                Some((2, len - 1))
            };
            match padded {
                None => None,
                Some((i, rem)) => {
                    if rem < 0 {
                        None
                    } else if ch >= 128 {
                        match spec_vbr_sizes(p, i, count - 1, rem, rem) {
                            None => None,
                            Some((sizes, i2, r2, last)) => {
                                if last < 0 || last > MAX_FRAME_BYTES {
                                    None
                                } else {
                                    Some((sizes.push(last), i2))
                                }
                            },
                        }
                    } else {
                        let last = rem / count;
                        if last * count != rem || last > MAX_FRAME_BYTES {
                            None
                        } else {
                            Some((repeat(count as nat, last), i))
                        }
                    }
                },
            }
        }
    }
}

/// `n` equal sizes of `c` bytes.
pub open spec fn repeat(n: nat, c: int) -> Seq<int> {
    Seq::new(n, |j: int| c)
}

/// Where frame `j` starts in a packet whose frames have the given sizes and
/// whose payload starts at `offset`.
pub open spec fn frame_start(sizes: Seq<int>, offset: int, j: int) -> int {
    offset + sum(sizes.take(j))
}

/// The bytes of frame `j` of a well-formed packet.
pub open spec fn spec_frame(p: Seq<u8>, j: int) -> Seq<u8> {
    let (sizes, offset) = spec_parse(p)->Some_0;
    p.subrange(frame_start(sizes, offset, j), frame_start(sizes, offset, j + 1))
}

/// The frames of a well-formed packet, in stream order.
pub open spec fn spec_frames(p: Seq<u8>) -> Seq<Seq<u8>> {
    Seq::new(spec_parse(p)->Some_0.0.len(), |j: int| spec_frame(p, j))
}

/// Read a frame length field at position `i`, with `rem` bytes left.
fn read_size(p: &[u8], i: usize, rem: i64) -> (r: Option<(usize, usize)>)
    requires
        0 <= i,
        i as int + rem <= p@.len(),
    ensures
        match spec_size_field(p@, i as int, rem as int) {
            None => r is None,
            Some((s, b)) => r is Some && r->Some_0.0 as int == s && r->Some_0.1 as int == b,
        },
        r is Some ==> r->Some_0.0 <= 1275 && 1 <= r->Some_0.1 <= 2 && r->Some_0.1 as int <= rem,
{
    if rem < 1 {
        None
    } else if p[i] < 252 {
        Some((p[i] as usize, 1))
    } else if rem < 2 {
        None
    } else {
        Some((4 * (p[i + 1] as usize) + p[i] as usize, 2))
    }
}

/// Skip the padding length bytes that start at `i0`, with `rem0` bytes left.
fn skip_padding(p: &[u8], i0: usize, rem0: i64) -> (r: Option<(usize, i64)>)
    requires
        i0 as int + rem0 <= p@.len(),
        p@.len() <= MAX_NATIVE_LEN,
        rem0 >= -255,
    ensures
        match spec_padding(p@, i0 as int, rem0 as int) {
            None => r is None,
            Some((i, rem)) => r is Some && r->Some_0.0 as int == i && r->Some_0.1 as int == rem,
        },
        r is Some ==> r->Some_0.0 as int + r->Some_0.1 <= p@.len() && r->Some_0.0 <= p@.len()
            && i0 <= r->Some_0.0,
{
    let mut i = i0;
    let mut rem = rem0;
    loop
        invariant
            i0 <= i,
            i as int + rem <= p@.len(),
            rem >= -255,
            p@.len() <= MAX_NATIVE_LEN,
            spec_padding(p@, i0 as int, rem0 as int) == spec_padding(p@, i as int, rem as int),
        decreases p@.len() - i,
    {
        if rem <= 0 || i >= p.len() {
            return None;
        }
        let b = p[i];
        let tmp: i64 = if b == 255 {
            254
        } else {
            b as i64
        };
        rem = rem - 1 - tmp;
        i = i + 1;
        if b != 255 {
            return Some((i, rem));
        }
    }
}

/// Read the `k0` length fields of a variable-bitrate packet that start at `i0`.
fn read_vbr_sizes(p: &[u8], i0: usize, k0: usize, rem0: i64, last0: i64) -> (r: Option<
    (Vec<usize>, usize, i64, i64),
>)
    requires
        i0 as int + rem0 <= p@.len(),
        p@.len() <= MAX_NATIVE_LEN,
        0 <= rem0,
        last0 == rem0,
        k0 < 64,
    ensures
        match spec_vbr_sizes(p@, i0 as int, k0 as int, rem0 as int, last0 as int) {
            None => r is None,
            Some((sizes, i, rem, last)) => r is Some && r->Some_0.0@.map_values(
                |s: usize| s as int,
            ) == sizes && r->Some_0.1 == i && r->Some_0.2 == rem && r->Some_0.3 == last,
        },
        r is Some ==> r->Some_0.0@.len() == k0,
        r is Some ==> forall|j: int| 0 <= j < r->Some_0.0@.len() ==> r->Some_0.0@[j] <= 1275,
        r is Some ==> r->Some_0.1 as int + r->Some_0.3 + sum(
            r->Some_0.0@.map_values(|s: usize| s as int),
        ) == i0 + last0,
{
    let mut sizes: Vec<usize> = Vec::new();
    let mut i = i0;
    let mut k = k0;
    let mut rem = rem0;
    let mut last = last0;
    loop
        invariant
            i0 <= i,
            i as int + rem <= p@.len(),
            0 <= rem <= rem0,
            p@.len() <= MAX_NATIVE_LEN,
            k <= k0 < 64,
            sizes@.len() + k == k0,
            forall|j: int| 0 <= j < sizes@.len() ==> sizes@[j] <= 1275,
            0 <= rem0,
            last0 == rem0,
            last0 as int - 1300 * (k0 as int - k as int) <= last as int <= last0 as int,
            i as int + last + sum(sizes@.map_values(|s: usize| s as int)) == i0 + last0,
            spec_vbr_sizes(p@, i0 as int, k0 as int, rem0 as int, last0 as int) == match spec_vbr_sizes(
                p@,
                i as int,
                k as int,
                rem as int,
                last as int,
            ) {
                None => None,
                Some((rest, i2, r2, l2)) => Some(
                    (sizes@.map_values(|s: usize| s as int) + rest, i2, r2, l2),
                ),
            },
        decreases k,
    {
        if k == 0 {
            proof {
                assert(sizes@.map_values(|s: usize| s as int) + Seq::<int>::empty() =~= sizes@.map_values(
                    |s: usize| s as int,
                ));
            }
            return Some((sizes, i, rem, last));
        }
        match read_size(p, i, rem) {
            None => {
                return None;
            },
            Some((s, b)) => {
                if s as i64 > rem - b as i64 {
                    return None;
                }
                let ghost old_sizes = sizes@.map_values(|s: usize| s as int);
                sizes.push(s);
                proof {
                    let ns = sizes@.map_values(|s: usize| s as int);
                    assert(ns.drop_last() =~= old_sizes);
                    assert(ns.last() == s as int);
                    assert forall|rest: Seq<int>| ns + rest =~= old_sizes + (seq![s as int] + rest) by {}
                }
                i = i + b;
                rem = rem - b as i64;
                last = last - b as i64 - s as i64;
                k = k - 1;
            },
        }
    }
}

/// Each step of a prefix sum adds one size.
pub proof fn lemma_sum_take_step(s: Seq<int>, j: int)
    requires
        0 <= j < s.len(),
    ensures
        sum(s.take(j + 1)) == sum(s.take(j)) + s[j],
{
    assert(s.take(j + 1).drop_last() =~= s.take(j));
}

/// A prefix of non-negative sizes sums to no more than the whole.
pub proof fn lemma_sum_prefix_le(s: Seq<int>, j: int)
    requires
        0 <= j <= s.len(),
        forall|k: int| 0 <= k < s.len() ==> s[k] >= 0,
    ensures
        sum(s.take(j)) <= sum(s),
    decreases s.len(),
{
    if j == s.len() {
        assert(s.take(j) =~= s);
    } else {
        assert(s.take(j) =~= s.drop_last().take(j));
        lemma_sum_prefix_le(s.drop_last(), j);
    }
}

/// `n` sizes of `c` bytes sum to `n * c`.
pub proof fn lemma_sum_const(n: nat, c: int)
    ensures
        sum(repeat(n, c)) == n * c,
    decreases n,
{
    if n > 0 {
        assert(repeat(n, c).drop_last() =~= repeat((n - 1) as nat, c));
        assert(repeat(n, c).last() == c);
        assert(sum(repeat(n, c)) == sum(repeat(n, c).drop_last()) + repeat(n, c).last());
        lemma_sum_const((n - 1) as nat, c);
        assert(n * c == (n - 1) * c + c) by (nonlinear_arith);
    } else {
        assert(n * c == 0) by (nonlinear_arith)
            requires
                n == 0,
        ;
    }
}

/// The frame sizes and payload offset of a packet that holds an arbitrary
/// number of frames, if it is well formed.
fn parse_code3(p: &[u8]) -> (r: Option<(Vec<usize>, usize)>)
    requires
        p@.len() >= 1,
        p@.len() <= MAX_NATIVE_LEN,
    ensures
        match spec_parse_code3(p@) {
            None => r is None,
            Some((sizes, offset)) => r is Some && r->Some_0.0@.map_values(|s: usize| s as int)
                == sizes && r->Some_0.1 == offset,
        },
        r is Some ==> r->Some_0.1 as int + sum(r->Some_0.0@.map_values(|s: usize| s as int))
            <= p@.len() && 1 <= r->Some_0.0@.len() <= MAX_FRAMES,
        r is Some ==> forall|j: int| 0 <= j < r->Some_0.0@.len() ==> r->Some_0.0@[j] <= 1275,
{
    let len = p.len() - 1;
    if len < 1 {
        return None;
    }
    let ch = p[1];
    let count = (ch % 64) as usize;
    let fsz = samples_per_frame_at(p[0], 48000);
    assert(fsz >= 120);
    assert(fsz * count <= 48000 * 64) by (nonlinear_arith)
        requires
            fsz <= 48000,
            count < 64,
    ;
    if count == 0 || fsz * count as u64 > 5760 {
        return None;
    }
    assert(count <= MAX_FRAMES) by (nonlinear_arith)
        requires
            fsz >= 120,
            fsz * count <= 5760,
    ;
    let padded = if (ch / 64) % 2 == 1 {
        skip_padding(p, 2, (len - 1) as i64)
    } else {
        Some((2usize, (len - 1) as i64))
    };
    let ghost spec_padded = if (ch as int / 64) % 2 == 1 {
        spec_padding(p@, 2, len - 1)
    } else {
        Some((2int, len - 1))
    };
    match padded {
        None => {
            assert(spec_padded is None);
            None
        },
        Some((i, rem)) => {
            assert(spec_padded == Some((i as int, rem as int)));
            if rem < 0 {
                None
            } else if ch >= 128 {
                match read_vbr_sizes(p, i, count - 1, rem, rem) {
                    None => None,
                    Some((sizes, i2, r2, last)) => {
                        if last < 0 || last > 1275 {
                            None
                        } else {
                            let ghost before = sizes@.map_values(|s: usize| s as int);
                            let ghost bv = sizes@;
                            let mut sizes = sizes;
                            sizes.push(last as usize);
                            assert forall|j: int| 0 <= j < sizes@.len() implies sizes@[j] <= 1275 by {
                                if j < bv.len() {
                                    assert(sizes@[j] == bv[j]);
                                }
                            }
                            proof {
                                let after = sizes@.map_values(|s: usize| s as int);
                                assert(after =~= before.push(last as int));
                                assert(after.drop_last() =~= before);
                                assert(after.last() == last as int);
                                assert(sum(after) == sum(before) + last as int);
                            }
                            Some((sizes, i2))
                        }
                    },
                }
            } else {
                let last = rem / (count as i64);
                assert(0 <= last * (count as i64) <= rem) by (nonlinear_arith)
                    requires
                        last == rem / (count as i64),
                        count > 0,
                        rem >= 0,
                ;
                if last * (count as i64) != rem || last > 1275 {
                    None
                } else {
                    let mut sizes: Vec<usize> = Vec::new();
                    let mut j: usize = 0;
                    while j < count
                        invariant
                            j <= count,
                            0 <= last <= 1275,
                            sizes@.map_values(|s: usize| s as int) =~= repeat(
                                j as nat,
                                last as int,
                            ),
                        decreases count - j,
                    {
                        let ghost before = sizes@;
                        sizes.push(last as usize);
                        proof {
                            assert(sizes@.map_values(|s: usize| s as int) =~= before.map_values(
                                |s: usize| s as int,
                            ).push(last as int));
                        }
                        j = j + 1;
                    }
                    proof {
                        lemma_sum_const(count as nat, last as int);
                        assert forall|j: int| 0 <= j < sizes@.len() implies sizes@[j] <= 1275 by {
                            assert(sizes@.map_values(|s: usize| s as int)[j] == last as int);
                        }
                    }
                    Some((sizes, i))
                }
            }
        },
    }
}

/// The frame sizes and payload offset of a packet, if it is well formed.
fn parse_layout(p: &[u8]) -> (r: Option<(Vec<usize>, usize)>)
    requires
        p@.len() <= MAX_NATIVE_LEN,
    ensures
        match spec_parse(p@) {
            None => r is None,
            Some((sizes, offset)) => r is Some && r->Some_0.0@.map_values(|s: usize| s as int)
                == sizes && r->Some_0.1 == offset,
        },
        r is Some ==> r->Some_0.1 as int + sum(r->Some_0.0@.map_values(|s: usize| s as int))
            <= p@.len() && 1 <= r->Some_0.0@.len() <= MAX_FRAMES,
        r is Some ==> forall|j: int| 0 <= j < r->Some_0.0@.len() ==> r->Some_0.0@[j] <= 1275,
{
    if p.len() == 0 {
        return None;
    }
    let len = p.len() - 1;
    let code = p[0] % 4;
    let mut sizes: Vec<usize> = Vec::new();
    if code == 0 {
        if len > MAX_FRAME_BYTES {
            return None;
        }
        sizes.push(len);
        proof {
            reveal_with_fuel(sum, 3);
            let v = sizes@.map_values(|s: usize| s as int);
            assert(v =~= seq![len as int]);
            assert(v.drop_last() =~= Seq::<int>::empty());
        }
        Some((sizes, 1))
    } else if code == 1 {
        if len % 2 == 1 || len / 2 > MAX_FRAME_BYTES {
            return None;
        }
        sizes.push(len / 2);
        sizes.push(len / 2);
        proof {
            reveal_with_fuel(sum, 3);
            let v = sizes@.map_values(|s: usize| s as int);
            assert(v =~= seq![len as int / 2, len as int / 2]);
            assert(v.drop_last() =~= seq![len as int / 2]);
            assert(v.drop_last().drop_last() =~= Seq::<int>::empty());
        }
        Some((sizes, 1))
    } else if code == 2 {
        match read_size(p, 1, len as i64) {
            None => None,
            Some((s, b)) => {
                if s > len - b || len - b - s > MAX_FRAME_BYTES {
                    None
                } else {
                    sizes.push(s);
                    sizes.push(len - b - s);
                    proof {
                        reveal_with_fuel(sum, 3);
                        let v = sizes@.map_values(|s: usize| s as int);
                        assert(v =~= seq![s as int, len - b - s]);
                        assert(v.drop_last() =~= seq![s as int]);
                        assert(v.drop_last().drop_last() =~= Seq::<int>::empty());
                    }
                    Some((sizes, 1 + b))
                }
            },
        }
    } else {
        parse_code3(p)
    }
}

/// A parsed Opus packet, returned from `parse`.
#[derive(Debug)]
pub struct Packet<'a> {
    /// The TOC byte of the packet.
    pub toc: u8,
    /// The frames contained in the packet.
    pub frames: Vec<&'a [u8]>,
    /// The offset into the packet at which the payload is located.
    pub payload_offset: usize,
}

/// Parse an Opus packet into one or more frames, each a view into the packet.
pub fn parse<'a>(packet: &'a [u8]) -> (r: Result<Packet<'a>, Error>)
    requires
        packet@.len() <= MAX_NATIVE_LEN,
    ensures
        r is Ok <==> spec_parse(packet@) is Some,
        r is Err ==> r->Err_0.spec_code() == ErrorCode::InvalidPacket
            && r->Err_0.spec_function() == "opus_packet_parse"@,
        r is Ok ==> {
            let pk = r->Ok_0;
            &&& pk.toc == packet@[0]
            &&& pk.payload_offset == spec_parse(packet@)->Some_0.1
            &&& pk.frames@.len() == spec_frames(packet@).len()
            &&& 1 <= pk.frames@.len() <= MAX_FRAMES
            &&& forall|j: int| 0 <= j < pk.frames@.len() ==> pk.frames@[j]@ == spec_frames(packet@)[j]
            &&& forall|j: int| 0 <= j < pk.frames@.len() ==> pk.frames@[j]@.len() <= MAX_FRAME_BYTES
        },
{
    match parse_layout(packet) {
        None => Err(Error::from_code("opus_packet_parse", OPUS_INVALID_PACKET)),
        Some((sizes, offset)) => {
            let ghost sz = sizes@.map_values(|s: usize| s as int);
            let mut frames: Vec<&'a [u8]> = Vec::new();
            let mut start = offset;
            let mut j: usize = 0;
            while j < sizes.len()
                invariant
                    j <= sizes@.len(),
                    packet@.len() <= MAX_NATIVE_LEN,
                    sz == sizes@.map_values(|s: usize| s as int),
                    sz == spec_parse(packet@)->Some_0.0,
                    offset == spec_parse(packet@)->Some_0.1,
                    offset + sum(sz) <= packet@.len(),
                    start as int == frame_start(sz, offset as int, j as int),
                    frames@.len() == j,
                    forall|k: int| 0 <= k < j ==> frames@[k]@ == spec_frame(packet@, k),
                    forall|k: int| 0 <= k < sizes@.len() ==> sizes@[k] <= 1275,
                    forall|k: int| 0 <= k < j ==> frames@[k]@.len() <= MAX_FRAME_BYTES,
                decreases sizes@.len() - j,
            {
                proof {
                    lemma_sum_take_step(sz, j as int);
                    lemma_sum_prefix_le(sz, j as int + 1);
                }
                assert(sz[j as int] == sizes@[j as int] as int);
                let end = start + sizes[j];
                frames.push(slice_subrange(packet, start, end));
                start = end;
                j = j + 1;
            }
            Ok(Packet { toc: packet[0], frames, payload_offset: offset })
        },
    }
}

/// The length fields read by `spec_vbr_sizes` number exactly `k`.
pub proof fn lemma_vbr_sizes_len(p: Seq<u8>, i: int, k: int, rem: int, last: int)
    requires
        k >= 0,
        spec_vbr_sizes(p, i, k, rem, last) is Some,
    ensures
        spec_vbr_sizes(p, i, k, rem, last)->Some_0.0.len() == k,
    decreases k,
{
    if k > 0 {
        let (s, b) = spec_size_field(p, i, rem)->Some_0;
        lemma_vbr_sizes_len(p, i + b, k - 1, rem - b, last - b - s);
    }
}

/// A well-formed packet holds as many frames as its table of contents
/// announces.
pub proof fn lemma_parse_count(p: Seq<u8>)
    requires
        spec_parse(p) is Some,
    ensures
        spec_nb_frames(p) == Ok::<int, i32>(spec_frames(p).len() as int),
{
    if toc_code(p[0]) == 3 {
        let len = p.len() - 1;
        let ch = p[1];
        let count = ch as int % 64;
        let padded = if (ch as int / 64) % 2 == 1 {
            spec_padding(p, 2, len - 1)
        } else {
            Some((2int, len - 1))
        };
        let (i, rem) = padded->Some_0;
        if ch >= 128 {
            lemma_vbr_sizes_len(p, i, count - 1, rem, rem);
        }
    }
}

} // verus!
