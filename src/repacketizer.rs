use vstd::prelude::*;
use vstd::slice::{slice_subrange, slice_to_vec};
use crate::error::{Error, ErrorCode, OPUS_INVALID_PACKET};
use crate::length::MAX_NATIVE_LEN;
use crate::repack_bounds::{lemma_code3_len, lemma_repack_fits};
use crate::packet::{
    lemma_parse_count, parse, spec_frames, spec_nb_frames, spec_parse, toc_samples_per_frame,
    MAX_FRAMES, MAX_FRAME_BYTES,
};

verus! {

/// The most audio that one packet may carry, in samples at 8 kHz (120 ms).
pub const MAX_PACKET_SAMPLES_8K: u64 = 960;

/// A repacketizer used to merge together or split apart multiple Opus packets.
#[derive(Debug)]
pub struct Repacketizer {}

/// An in-progress repacketization: the frames gathered so far, each a view
/// into a packet that outlives the session, and the table-of-contents byte
/// that they share. It holds the repacketizer exclusively while it lives.
#[derive(Debug)]
pub struct RepacketizerState<'rp, 'buf> {
    owner: &'rp mut Repacketizer,
    toc: u8,
    frames: Vec<&'buf [u8]>,
}

/// Whether two table-of-contents bytes agree on everything but the frame
/// count code.
pub open spec fn same_config(a: u8, b: u8) -> bool {
    a as int / 4 == b as int / 4
}

/// Whether a packet can join gathered frames that share `toc`: it is well
/// formed, announces the same configuration, and the whole stays within
/// 120 ms of audio.
pub open spec fn spec_can_cat(toc: u8, frames: Seq<Seq<u8>>, p: Seq<u8>) -> bool {
    &&& p.len() >= 1
    &&& spec_parse(p) is Some
    &&& (frames.len() > 0 ==> same_config(toc, p[0]))
    &&& {
        let first = if frames.len() == 0 {
            p[0]
        } else {
            toc
        };
        (frames.len() + spec_frames(p).len()) * toc_samples_per_frame(first, 8000) <= 960
    }
}

/// The bytes of a sequence of frames, one after another.
pub open spec fn concat(frames: Seq<Seq<u8>>) -> Seq<u8>
    decreases frames.len(),
{
    if frames.len() == 0 {
        Seq::empty()
    } else {
        concat(frames.drop_last()) + frames.last()
    }
}

/// The length field of a frame of `n` bytes: one byte below 252, else two.
pub open spec fn size_field(n: int) -> Seq<u8> {
    if n < 252 {
        seq![n as u8]
    } else {
        seq![(252 + n % 4) as u8, ((n - 252 - n % 4) / 4) as u8]
    }
}

/// The length fields of a sequence of frames, one after another.
pub open spec fn size_fields(frames: Seq<Seq<u8>>) -> Seq<u8>
    decreases frames.len(),
{
    if frames.len() == 0 {
        Seq::empty()
    } else {
        size_fields(frames.drop_last()) + size_field(frames.last().len() as int)
    }
}

/// Whether all frames have the length of the first.
pub open spec fn same_lengths(frames: Seq<Seq<u8>>) -> bool {
    forall|j: int| 0 <= j < frames.len() ==> #[trigger] frames[j].len() == frames[0].len()
}

/// The header of a packet that carries `frames` under the configuration of
/// `toc`: the table-of-contents byte with the frame count code (one frame;
/// two of equal size; two of different sizes, with the first one's length;
/// or any number, with the count, and the lengths of all but the last when
/// they differ).
pub open spec fn spec_header(toc: u8, frames: Seq<Seq<u8>>) -> Seq<u8> {
    let base = toc as int / 4 * 4;
    let n = frames.len();
    if n == 1 {
        seq![base as u8]
    } else if n == 2 && frames[0].len() == frames[1].len() {
        seq![(base + 1) as u8]
    } else if n == 2 {
        seq![(base + 2) as u8] + size_field(frames[0].len() as int)
    } else if same_lengths(frames) {
        seq![(base + 3) as u8, n as u8]
    } else {
        seq![(base + 3) as u8, (n + 128) as u8] + size_fields(frames.drop_last())
    }
}

/// The packet that carries `frames`, in order, under the configuration of `toc`.
pub open spec fn spec_packet_of(toc: u8, frames: Seq<Seq<u8>>) -> Seq<u8> {
    spec_header(toc, frames) + concat(frames)
}

/// Append the length field of a frame of `n` bytes.
fn push_size_field(out: &mut Vec<u8>, n: usize)
    requires
        n <= MAX_FRAME_BYTES,
    ensures
        final(out)@ == old(out)@ + size_field(n as int),
{
    if n < 252 {
        out.push(n as u8);
    } else {
        let first = 252 + (n % 4);
        out.push(first as u8);
        out.push(((n - first) / 4) as u8);
    }
    assert(final(out)@ =~= old(out)@ + size_field(n as int));
}

/// Copy `src` into `buffer` at `pos`, leaving the other bytes as they were.
fn write_bytes(buffer: &mut [u8], pos: usize, src: &[u8]) -> (end: usize)
    requires
        pos + src@.len() <= old(buffer)@.len(),
        old(buffer)@.len() <= MAX_NATIVE_LEN,
    ensures
        end == pos + src@.len(),
        final(buffer)@ == old(buffer)@.subrange(0, pos as int) + src@ + old(buffer)@.subrange(
            end as int,
            old(buffer)@.len() as int,
        ),
{
    let mut k: usize = 0;
    while k < src.len()
        invariant
            k <= src@.len(),
            pos + src@.len() <= old(buffer)@.len(),
            old(buffer)@.len() <= MAX_NATIVE_LEN,
            buffer@.len() == old(buffer)@.len(),
            buffer@ =~= old(buffer)@.subrange(0, pos as int) + src@.take(k as int) + old(
                buffer,
            )@.subrange(pos + k, old(buffer)@.len() as int),
        decreases src@.len() - k,
    {
        buffer[pos + k] = src[k];
        k = k + 1;
    }
    assert(src@.take(src@.len() as int) =~= src@);
    pos + src.len()
}

/// The table-of-contents byte and frames that gathering `packets` in order
/// gives, or `None` where one of them cannot join the frames before it.
pub open spec fn spec_gather(packets: Seq<Seq<u8>>) -> Option<(u8, Seq<Seq<u8>>)>
    decreases packets.len(),
{
    if packets.len() == 0 {
        Some((0u8, Seq::<Seq<u8>>::empty()))
    } else {
        match spec_gather(packets.drop_last()) {
            None => None,
            Some((toc, frames)) => {
                let p = packets.last();
                if spec_can_cat(toc, frames, p) {
                    Some(
                        (
                            if frames.len() == 0 {
                                p[0]
                            } else {
                                toc
                            },
                            frames + spec_frames(p),
                        ),
                    )
                } else {
                    None
                }
            },
        }
    }
}

/// The length bytes of `amount` bytes of padding, themselves included: a
/// byte of 255 for each 254 bytes more, and a last byte with the rest.
pub open spec fn padding_field(amount: int) -> Seq<u8> {
    let n = (amount - 1) / 255;
    Seq::new(n as nat, |j: int| 255u8).push((amount - 255 * n - 1) as u8)
}

/// The length fields after the frame count byte: none where all frames
/// have the same length, else those of all frames but the last.
pub open spec fn code3_body(frames: Seq<Seq<u8>>) -> Seq<u8> {
    if same_lengths(frames) {
        Seq::empty()
    } else {
        size_fields(frames.drop_last())
    }
}

/// The header of a packet with a frame count byte that carries `frames`
/// with `amount` bytes of padding.
pub open spec fn code3_head(toc: u8, frames: Seq<Seq<u8>>, amount: int) -> Seq<u8> {
    let base = toc as int / 4 * 4;
    let ch = frames.len() + if same_lengths(frames) {
        0int
    } else {
        128int
    };
    if amount == 0 {
        seq![(base + 3) as u8, ch as u8] + code3_body(frames)
    } else {
        seq![(base + 3) as u8, (ch + 64) as u8] + padding_field(amount) + code3_body(frames)
    }
}

/// The zero bytes that end `amount` bytes of padding.
pub open spec fn pad_zeros(amount: int) -> Seq<u8> {
    if amount == 0 {
        Seq::empty()
    } else {
        Seq::new((amount - padding_field(amount).len()) as nat, |j: int| 0u8)
    }
}

/// The packet of exactly `len` bytes that carries `frames`, in order, under
/// the configuration of `toc`, if they fit: the packet itself where it has
/// that length and holds at most two frames, else a packet with a frame
/// count byte, padded where it is shorter.
pub open spec fn spec_padded_packet(toc: u8, frames: Seq<Seq<u8>>, len: int) -> Option<Seq<u8>> {
    let plain = spec_packet_of(toc, frames);
    let n = frames.len();
    if n <= 2 && plain.len() > len {
        None
    } else if n <= 2 && plain.len() == len {
        Some(plain)
    } else {
        let tot = 2 + code3_body(frames).len() + concat(frames).len();
        if tot > len {
            None
        } else {
            let amount = len - tot;
            Some(code3_head(toc, frames, amount) + concat(frames) + pad_zeros(amount))
        }
    }
}

/// Append the length bytes of `amount` bytes of padding.
fn push_padding_field(out: &mut Vec<u8>, amount: usize)
    requires
        amount >= 1,
        amount <= MAX_NATIVE_LEN,
    ensures
        final(out)@ == old(out)@ + padding_field(amount as int),
        padding_field(amount as int).len() <= amount,
{
    let n = (amount - 1) / 255;
    let ghost start = out@;
    let mut i: usize = 0;
    while i < n
        invariant
            i <= n,
            out@ =~= start + Seq::new(i as nat, |j: int| 255u8),
        decreases n - i,
    {
        out.push(255);
        i = i + 1;
    }
    out.push((amount - 255 * n - 1) as u8);
    assert(out@ =~= start + padding_field(amount as int));
}

impl Repacketizer {
    /// Create and initialize a repacketizer.
    pub fn new() -> (r: Result<Repacketizer, Error>)
        ensures
            r is Ok,
    {
        Ok(Repacketizer {})
    }

    /// Shortcut to combine several smaller packets into one larger one.
    pub fn combine<'b>(&mut self, input: &[&'b [u8]], output: &mut [u8]) -> (r: Result<usize, Error>)
        requires
            forall|j: int| 0 <= j < input@.len() ==> (#[trigger] input@[j])@.len() <= MAX_NATIVE_LEN,
            old(output)@.len() <= MAX_NATIVE_LEN,
        ensures
            ({
                let packets = input@.map_values(|p: &'b [u8]| p@);
                match spec_gather(packets) {
                    None => r is Err && r->Err_0.spec_code() == ErrorCode::InvalidPacket
                        && final(output)@ == old(output)@,
                    Some((toc, frames)) => {
                        let pk = spec_packet_of(toc, frames);
                        &&& frames.len() == 0 ==> r is Err && r->Err_0.spec_code() == ErrorCode::BadArg
                        &&& frames.len() > 0 && pk.len() > old(output)@.len() ==> r is Err
                            && r->Err_0.spec_code() == ErrorCode::BufferTooSmall
                        &&& frames.len() > 0 && pk.len() <= old(output)@.len() ==> r is Ok
                        &&& r is Ok ==> r->Ok_0 == pk.len() && final(output)@ == pk + old(
                            output,
                        )@.subrange(pk.len() as int, old(output)@.len() as int)
                        &&& r is Err ==> final(output)@ == old(output)@
                    },
                }
            }),
    {
        let ghost packets = input@.map_values(|p: &'b [u8]| p@);
        let mut state = self.begin();
        let mut j: usize = 0;
        assert(packets.take(0) =~= Seq::<Seq<u8>>::empty());
        assert(state.frames() =~= Seq::<Seq<u8>>::empty());
        while j < input.len()
            invariant
                j <= input@.len(),
                packets == input@.map_values(|p: &'b [u8]| p@),
                forall|k: int| 0 <= k < input@.len() ==> (#[trigger] input@[k])@.len() <= MAX_NATIVE_LEN,
                state.wf(),
                spec_gather(packets.take(j as int)) == Some((state.toc(), state.frames())),
            decreases input@.len() - j,
        {
            proof {
                assert(packets.take(j + 1).drop_last() =~= packets.take(j as int));
                assert(packets.take(j + 1).last() == input@[j as int]@);
            }
            match state.cat(input[j]) {
                Ok(()) => {},
                Err(e) => {
                    proof {
                        lemma_gather_stays_failed(packets, j as int + 1);
                    }
                    return Err(e);
                },
            }
            j = j + 1;
        }
        assert(packets.take(j as int) =~= packets);
        state.out(output)
    }

    /// Begin using the repacketizer.
    pub fn begin<'rp, 'buf>(&'rp mut self) -> (r: RepacketizerState<'rp, 'buf>)
        ensures
            r.wf(),
            r.frames() == Seq::<Seq<u8>>::empty(),
            r.toc() == 0,
    {
        RepacketizerState { owner: self, toc: 0, frames: Vec::new() }
    }
}

impl<'rp, 'buf> RepacketizerState<'rp, 'buf> {
    /// The frames gathered so far, in order.
    pub closed spec fn frames(&self) -> Seq<Seq<u8>> {
        self.frames@.map_values(|f: &'buf [u8]| f@)
    }

    /// The table-of-contents byte that the gathered frames share.
    pub closed spec fn toc(&self) -> u8 {
        self.toc
    }

    /// The gathered frames fit in one packet.
    pub closed spec fn wf(&self) -> bool {
        &&& self.frames@.len() <= MAX_FRAMES
        &&& forall|j: int| 0 <= j < self.frames@.len() ==> #[trigger] self.frames@[j]@.len() <= MAX_FRAME_BYTES
        &&& self.frames@.len() > 0 ==> self.frames@.len() * toc_samples_per_frame(self.toc, 8000) <= 960
    }

    /// Add a packet to the current repacketizer state.
    pub fn cat(&mut self, packet: &'buf [u8]) -> (r: Result<(), Error>)
        requires
            old(self).wf(),
            packet@.len() <= MAX_NATIVE_LEN,
        ensures
            final(self).wf(),
            r is Ok <==> spec_can_cat(old(self).toc(), old(self).frames(), packet@),
            r is Ok ==> final(self).frames() == old(self).frames() + spec_frames(packet@),
            r is Ok ==> final(self).toc() == if old(self).frames().len() == 0 {
                packet@[0]
            } else {
                old(self).toc()
            },
            r is Err ==> final(self).frames() == old(self).frames() && final(self).toc() == old(self).toc(),
            r is Err ==> r->Err_0.spec_code() == ErrorCode::InvalidPacket
                && r->Err_0.spec_function() == "opus_repacketizer_cat"@,
    {
        if packet.len() < 1 {
            return Err(Error::from_code("opus_repacketizer_cat", OPUS_INVALID_PACKET));
        }
        let first = if self.frames.len() == 0 {
            packet[0]
        } else {
            if self.toc / 4 != packet[0] / 4 {
                return Err(Error::from_code("opus_repacketizer_cat", OPUS_INVALID_PACKET));
            }
            self.toc
        };
        let parsed = match parse(packet) {
            Ok(pk) => pk,
            Err(_) => {
                return Err(Error::from_code("opus_repacketizer_cat", OPUS_INVALID_PACKET));
            },
        };
        let framesize = crate::packet::samples_per_frame_at(first, 8000);
        let total = (self.frames.len() + parsed.frames.len()) as u64;
        assert(total * framesize <= 96 * 8000) by (nonlinear_arith)
            requires
                total <= 96,
                framesize <= 8000,
        ;
        if total * framesize > MAX_PACKET_SAMPLES_8K {
            return Err(Error::from_code("opus_repacketizer_cat", OPUS_INVALID_PACKET));
        }
        assert(total <= MAX_FRAMES) by (nonlinear_arith)
            requires
                framesize >= 20,
                total * framesize <= 960,
        ;
        let ghost before = self.frames@;
        let mut j: usize = 0;
        while j < parsed.frames.len()
            invariant
                j <= parsed.frames@.len(),
                self.frames@.len() == before.len() + j,
                forall|k: int| 0 <= k < before.len() ==> self.frames@[k] == before[k],
                forall|k: int| 0 <= k < j ==> self.frames@[before.len() + k] == parsed.frames@[k],
            decreases parsed.frames@.len() - j,
        {
            self.frames.push(parsed.frames[j]);
            j = j + 1;
        }
        self.toc = first;
        proof {
            assert forall|k: int| 0 <= k < self.frames@.len() implies #[trigger] self.frames@[k]@.len()
                <= MAX_FRAME_BYTES by {
                if k >= before.len() {
                    assert(self.frames@[k] == parsed.frames@[k - before.len()]);
                } else {
                    assert(self.frames@[k] == old(self).frames@[k]);
                    assert(old(self).frames@[k]@.len() <= MAX_FRAME_BYTES);
                }
            }
            let added = parsed.frames@.map_values(|f: &'buf [u8]| f@);
            assert(added =~= spec_frames(packet@));
            assert(self.frames@.map_values(|f: &'buf [u8]| f@) =~= before.map_values(
                |f: &'buf [u8]| f@,
            ) + added);
        }
        Ok(())
    }

    /// Add a packet to the current repacketizer state, moving it.
    pub fn cat_move<'b2>(self, packet: &'b2 [u8]) -> (r: Result<RepacketizerState<'rp, 'b2>, Error>) where
        'buf: 'b2,

        requires
            self.wf(),
            packet@.len() <= MAX_NATIVE_LEN,
        ensures
            r is Ok <==> spec_can_cat(self.toc(), self.frames(), packet@),
            r is Ok ==> r->Ok_0.wf() && r->Ok_0.frames() == self.frames() + spec_frames(packet@)
                && r->Ok_0.toc() == if self.frames().len() == 0 {
                packet@[0]
            } else {
                self.toc()
            },
            r is Err ==> r->Err_0.spec_code() == ErrorCode::InvalidPacket
                && r->Err_0.spec_function() == "opus_repacketizer_cat"@,
    {
        let ghost gathered = self.frames();
        let mut shorter: RepacketizerState<'rp, 'b2> = RepacketizerState {
            owner: self.owner,
            toc: self.toc,
            frames: self.frames,
        };
        proof {
            assert(shorter.frames() =~= gathered);
        }
        match shorter.cat(packet) {
            Ok(()) => Ok(shorter),
            Err(e) => Err(e),
        }
    }

    /// Get the total number of frames contained in packet data submitted so
    /// far via `cat`.
    pub fn get_nb_frames(&mut self) -> (r: usize)
        ensures
            r == old(self).frames().len(),
            *final(self) == *old(self),
    {
        self.frames.len()
    }

    /// The gathered frames from `begin` up to `end`.
    pub open spec fn range(&self, begin: int, end: int) -> Seq<Seq<u8>> {
        self.frames().subrange(begin, end)
    }

    /// Whether the frames from `begin` up to `end` all have the same length.
    fn lengths_same(&self, begin: usize, end: usize) -> (r: bool)
        requires
            begin < end <= self.frames().len(),
        ensures
            r == same_lengths(self.range(begin as int, end as int)),
    {
        let ghost sub = self.range(begin as int, end as int);
        assert(forall|j: int| 0 <= j < sub.len() ==> sub[j] == self.frames@[begin + j]@);
        let first_len = self.frames[begin].len();
        let mut i: usize = begin + 1;
        while i < end
            invariant
                begin < i <= end,
                end <= self.frames@.len(),
                first_len == self.frames@[begin as int]@.len(),
                sub == self.range(begin as int, end as int),
                forall|j: int| 0 <= j < sub.len() ==> sub[j] == self.frames@[begin + j]@,
                forall|j: int| 0 <= j < i - begin ==> #[trigger] sub[j].len() == sub[0].len(),
            decreases end - i,
        {
            if self.frames[i].len() != first_len {
                assert(sub[i - begin].len() != sub[0].len());
                return false;
            }
            i = i + 1;
        }
        true
    }

    /// Append the length fields of the frames from `begin` up to `end`.
    fn push_size_fields(&self, out: &mut Vec<u8>, begin: usize, end: usize)
        requires
            self.wf(),
            begin <= end <= self.frames().len(),
        ensures
            final(out)@ == old(out)@ + size_fields(self.range(begin as int, end as int)),
            final(out)@.len() <= old(out)@.len() + 2 * (end - begin),
    {
        let ghost sub = self.range(begin as int, end as int);
        let ghost start = out@;
        let mut i: usize = begin;
        assert(sub.take(0) =~= Seq::<Seq<u8>>::empty());
        assert(start + size_fields(Seq::<Seq<u8>>::empty()) =~= start);
        while i < end
            invariant
                begin <= i <= end,
                end <= self.frames@.len(),
                self.wf(),
                sub == self.range(begin as int, end as int),
                forall|j: int| 0 <= j < sub.len() ==> sub[j] == self.frames@[begin + j]@,
                out@ == start + size_fields(sub.take(i - begin)),
                out@.len() <= start.len() + 2 * (i - begin),
            decreases end - i,
        {
            proof {
                assert(sub.take(i - begin + 1).drop_last() =~= sub.take(i - begin));
                assert(self.frames@[i as int]@.len() <= MAX_FRAME_BYTES);
            }
            push_size_field(out, self.frames[i].len());
            proof {
                assert(out@ =~= start + size_fields(sub.take(i - begin + 1)));
            }
            i = i + 1;
        }
        assert(sub.take(end - begin) =~= sub);
    }

    /// The header of a packet that carries the frames from `begin` up to `end`.
    fn header(&self, begin: usize, end: usize) -> (r: Vec<u8>)
        requires
            self.wf(),
            begin < end <= self.frames().len(),
        ensures
            r@ == spec_header(self.toc(), self.range(begin as int, end as int)),
            r@.len() <= 2 + 2 * (end - begin),
    {
        let ghost sub = self.range(begin as int, end as int);
        let base = self.toc / 4 * 4;
        let n = end - begin;
        let mut out: Vec<u8> = Vec::new();
        assert(forall|j: int| 0 <= j < sub.len() ==> sub[j] == self.frames@[begin + j]@);
        if n == 1 {
            out.push(base);
        } else if n == 2 && self.frames[begin].len() == self.frames[begin + 1].len() {
            out.push(base + 1);
        } else if n == 2 {
            out.push(base + 2);
            push_size_field(&mut out, self.frames[begin].len());
        } else if self.lengths_same(begin, end) {
            out.push(base + 3);
            out.push(n as u8);
        } else {
            out.push(base + 3);
            out.push((n + 128) as u8);
            self.push_size_fields(&mut out, begin, end - 1);
            assert(self.range(begin as int, end - 1) =~= sub.drop_last());
        }
        proof {
            assert(out@ =~= spec_header(self.toc(), sub));
        }
        out
    }

    /// Write the packet that carries the frames from `begin` up to `end`,
    /// failing as `what`.
    fn emit(&self, begin: usize, end: usize, buffer: &mut [u8], what: &'static str) -> (r: Result<
        usize,
        Error,
    >)
        requires
            self.wf(),
            old(buffer)@.len() <= MAX_NATIVE_LEN,
        ensures
            begin >= end || end > self.frames().len() ==> r is Err && r->Err_0.spec_code()
                == ErrorCode::BadArg,
            begin < end <= self.frames().len() && spec_packet_of(
                self.toc(),
                self.range(begin as int, end as int),
            ).len() > old(buffer)@.len() ==> r is Err && r->Err_0.spec_code()
                == ErrorCode::BufferTooSmall,
            begin < end <= self.frames().len() && spec_packet_of(
                self.toc(),
                self.range(begin as int, end as int),
            ).len() <= old(buffer)@.len() ==> r is Ok,
            r is Ok ==> {
                let pk = spec_packet_of(self.toc(), self.range(begin as int, end as int));
                &&& r->Ok_0 == pk.len()
                &&& final(buffer)@ == pk + old(buffer)@.subrange(pk.len() as int, old(buffer)@.len() as int)
            },
            r is Err ==> final(buffer)@ == old(buffer)@ && r->Err_0.spec_function() == what@,
    {
        if begin >= end || end > self.frames.len() {
            return Err(Error::from_code(what, crate::error::OPUS_BAD_ARG));
        }
        let header = self.header(begin, end);
        let total = header.len() + self.payload_len(begin, end);
        if total > buffer.len() {
            return Err(Error::from_code(what, crate::error::OPUS_BUFFER_TOO_SMALL));
        }
        let ghost orig = buffer@;
        let pos = write_bytes(buffer, 0, header.as_slice());
        let end_pos = self.write_frames(buffer, pos, begin, end);
        assert(buffer@ =~= spec_packet_of(self.toc(), self.range(begin as int, end as int))
            + orig.subrange(end_pos as int, orig.len() as int));
        Ok(end_pos)
    }

    /// The number of payload bytes in the frames from `begin` up to `end`.
    fn payload_len(&self, begin: usize, end: usize) -> (r: usize)
        requires
            self.wf(),
            begin <= end <= self.frames().len(),
        ensures
            r == concat(self.range(begin as int, end as int)).len(),
            r <= (end - begin) * MAX_FRAME_BYTES,
    {
        let ghost sub = self.range(begin as int, end as int);
        let mut total: usize = 0;
        let mut i: usize = begin;
        assert(sub.take(0) =~= Seq::<Seq<u8>>::empty());
        while i < end
            invariant
                begin <= i <= end,
                end <= self.frames@.len(),
                self.wf(),
                sub == self.range(begin as int, end as int),
                total == concat(sub.take(i - begin)).len(),
                total <= (i - begin) * MAX_FRAME_BYTES,
            decreases end - i,
        {
            proof {
                assert(sub.take(i - begin + 1).drop_last() =~= sub.take(i - begin));
                assert(sub[i - begin] == self.frames@[i as int]@);
                assert(self.frames@[i as int]@.len() <= MAX_FRAME_BYTES);
            }
            total = total + self.frames[i].len();
            i = i + 1;
        }
        assert(sub.take(end - begin) =~= sub);
        total
    }

    /// Copy the frames from `begin` up to `end` into `buffer` at `pos`.
    fn write_frames(&self, buffer: &mut [u8], pos: usize, begin: usize, end: usize) -> (r: usize)
        requires
            begin <= end <= self.frames().len(),
            pos + concat(self.range(begin as int, end as int)).len() <= old(buffer)@.len(),
            old(buffer)@.len() <= MAX_NATIVE_LEN,
        ensures
            r == pos + concat(self.range(begin as int, end as int)).len(),
            final(buffer)@ == old(buffer)@.subrange(0, pos as int) + concat(
                self.range(begin as int, end as int),
            ) + old(buffer)@.subrange(r as int, old(buffer)@.len() as int),
    {
        let ghost sub = self.range(begin as int, end as int);
        let ghost orig = buffer@;
        let mut at = pos;
        let mut i: usize = begin;
        assert(sub.take(0) =~= Seq::<Seq<u8>>::empty());
        while i < end
            invariant
                begin <= i <= end,
                end <= self.frames@.len(),
                sub == self.range(begin as int, end as int),
                buffer@.len() == orig.len(),
                orig.len() <= MAX_NATIVE_LEN,
                pos + concat(sub).len() <= orig.len(),
                at == pos + concat(sub.take(i - begin)).len(),
                buffer@ =~= orig.subrange(0, pos as int) + concat(sub.take(i - begin))
                    + orig.subrange(at as int, orig.len() as int),
            decreases end - i,
        {
            assert(sub.take(i - begin + 1).drop_last() =~= sub.take(i - begin));
            assert(sub[i - begin] == self.frames@[i as int]@);
            proof {
                lemma_concat_prefix_len(sub, i - begin + 1);
            }
            at = write_bytes(buffer, at, self.frames[i]);
            i = i + 1;
        }
        assert(sub.take(end - begin) =~= sub);
        at
    }

    /// Write a packet of exactly `buffer.len()` bytes that carries all the
    /// gathered frames, padding it where it is shorter.
    fn emit_padded(&self, buffer: &mut [u8], what: &'static str) -> (r: Result<(), Error>)
        requires
            self.wf(),
            self.frames().len() > 0,
            old(buffer)@.len() <= MAX_NATIVE_LEN,
        ensures
            match spec_padded_packet(self.toc(), self.frames(), old(buffer)@.len() as int) {
                None => r is Err && r->Err_0.spec_code() == ErrorCode::BufferTooSmall
                    && final(buffer)@ == old(buffer)@,
                Some(pk) => r is Ok && final(buffer)@ == pk,
            },
            r is Err ==> r->Err_0.spec_function() == what@,
    {
        let n = self.frames.len();
        assert(self.range(0, n as int) =~= self.frames());
        let plain = self.header(0, n) .len() + self.payload_len(0, n);
        if n <= 2 && plain >= buffer.len() {
            if plain > buffer.len() {
                return Err(Error::from_code(what, crate::error::OPUS_BUFFER_TOO_SMALL));
            }
            return match self.emit(0, n, buffer, what) {
                Ok(_) => {
                    assert(buffer@ =~= spec_packet_of(self.toc(), self.frames()));
                    Ok(())
                },
                Err(e) => Err(e),
            };
        }
        let payload = self.payload_len(0, n);
        let body_len = self.code3_body_len(n);
        let tot = 2 + body_len + payload;
        if tot > buffer.len() {
            return Err(Error::from_code(what, crate::error::OPUS_BUFFER_TOO_SMALL));
        }
        let amount = buffer.len() - tot;
        let head = self.code3_head(amount);
        let ghost orig = buffer@;
        let pos = write_bytes(buffer, 0, head.as_slice());
        let end_pos = self.write_frames(buffer, pos, 0, n);
        let mut z = end_pos;
        while z < buffer.len()
            invariant
                end_pos <= z <= buffer@.len(),
                buffer@.len() == orig.len(),
                orig.len() <= MAX_NATIVE_LEN,
                buffer@ =~= head@ + concat(self.frames()) + Seq::new((z - end_pos) as nat, |j: int| 0u8)
                    + orig.subrange(z as int, orig.len() as int),
            decreases buffer@.len() - z,
        {
            buffer[z] = 0;
            z = z + 1;
        }
        assert(buffer@ =~= head@ + concat(self.frames()) + pad_zeros(amount as int));
        Ok(())
    }

    /// The length of the length fields after the frame count byte.
    fn code3_body_len(&self, n: usize) -> (r: usize)
        requires
            self.wf(),
            n == self.frames().len(),
            n > 0,
        ensures
            r == code3_body(self.frames()).len(),
            r <= 2 * MAX_FRAMES,
    {
        assert(self.range(0, n as int) =~= self.frames());
        if self.lengths_same(0, n) {
            0
        } else {
            let mut body: Vec<u8> = Vec::new();
            self.push_size_fields(&mut body, 0, n - 1);
            assert(self.range(0, n - 1) =~= self.frames().drop_last());
            body.len()
        }
    }

    /// The header of a packet with a frame count byte that carries all the
    /// gathered frames with `amount` bytes of padding.
    fn code3_head(&self, amount: usize) -> (r: Vec<u8>)
        requires
            self.wf(),
            self.frames().len() > 0,
            amount <= MAX_NATIVE_LEN,
        ensures
            r@ == code3_head(self.toc(), self.frames(), amount as int),
            amount > 0 ==> r@.len() == 2 + padding_field(amount as int).len() + code3_body(self.frames()).len(),
            amount == 0 ==> r@.len() == 2 + code3_body(self.frames()).len(),
            amount > 0 ==> padding_field(amount as int).len() <= amount,
    {
        let n = self.frames.len();
        assert(self.range(0, n as int) =~= self.frames());
        let same = self.lengths_same(0, n);
        let base = self.toc / 4 * 4;
        let ch: u8 = if same {
            n as u8
        } else {
            (n + 128) as u8
        };
        let mut head: Vec<u8> = Vec::new();
        head.push(base + 3);
        if amount == 0 {
            head.push(ch);
        } else {
            head.push(ch + 64);
            push_padding_field(&mut head, amount);
        }
        if !same {
            self.push_size_fields(&mut head, 0, n - 1);
            assert(self.range(0, n - 1) =~= self.frames().drop_last());
        }
        assert(head@ =~= code3_head(self.toc(), self.frames(), amount as int));
        head
    }

    /// Construct a new packet from data previously submitted via `cat`, with
    /// a manually specified subrange.
    ///
    /// The `end` index should not exceed the value of `get_nb_frames()`.
    pub fn out_range(&mut self, begin: usize, end: usize, buffer: &mut [u8]) -> (r: Result<usize, Error>)
        requires
            old(self).wf(),
            begin <= MAX_NATIVE_LEN,
            end <= MAX_NATIVE_LEN,
            old(buffer)@.len() <= MAX_NATIVE_LEN,
        ensures
            final(self).wf(),
            final(self).frames() == old(self).frames(),
            final(self).toc() == old(self).toc(),
            begin >= end || end > old(self).frames().len() ==> r is Err && r->Err_0.spec_code()
                == ErrorCode::BadArg,
            begin < end <= old(self).frames().len() && spec_packet_of(
                old(self).toc(),
                old(self).range(begin as int, end as int),
            ).len() > old(buffer)@.len() ==> r is Err && r->Err_0.spec_code()
                == ErrorCode::BufferTooSmall,
            begin < end <= old(self).frames().len() && spec_packet_of(
                old(self).toc(),
                old(self).range(begin as int, end as int),
            ).len() <= old(buffer)@.len() ==> r is Ok,
            r is Ok ==> {
                let pk = spec_packet_of(old(self).toc(), old(self).range(begin as int, end as int));
                &&& r->Ok_0 == pk.len()
                &&& final(buffer)@ == pk + old(buffer)@.subrange(pk.len() as int, old(buffer)@.len() as int)
            },
            r is Err ==> final(buffer)@ == old(buffer)@
                && r->Err_0.spec_function() == "opus_repacketizer_out_range"@,
    {
        self.emit(begin, end, buffer, "opus_repacketizer_out_range")
    }

    /// Construct a new packet from data previously submitted via `cat`.
    ///
    /// All previously submitted frames are used.
    pub fn out(&mut self, buffer: &mut [u8]) -> (r: Result<usize, Error>)
        requires
            old(self).wf(),
            old(buffer)@.len() <= MAX_NATIVE_LEN,
        ensures
            final(self).wf(),
            final(self).frames() == old(self).frames(),
            final(self).toc() == old(self).toc(),
            old(self).frames().len() == 0 ==> r is Err && r->Err_0.spec_code() == ErrorCode::BadArg,
            old(self).frames().len() > 0 && spec_packet_of(old(self).toc(), old(self).frames()).len()
                > old(buffer)@.len() ==> r is Err && r->Err_0.spec_code() == ErrorCode::BufferTooSmall,
            old(self).frames().len() > 0 && spec_packet_of(old(self).toc(), old(self).frames()).len()
                <= old(buffer)@.len() ==> r is Ok,
            r is Ok ==> {
                let pk = spec_packet_of(old(self).toc(), old(self).frames());
                &&& r->Ok_0 == pk.len()
                &&& final(buffer)@ == pk + old(buffer)@.subrange(pk.len() as int, old(buffer)@.len() as int)
            },
            r is Err ==> final(buffer)@ == old(buffer)@
                && r->Err_0.spec_function() == "opus_repacketizer_out"@,
    {
        let n = self.frames.len();
        assert(self.range(0, n as int) =~= self.frames());
        self.emit(0, n, buffer, "opus_repacketizer_out")
    }
}

/// Once gathering fails it stays failed, whatever packets follow.
proof fn lemma_gather_stays_failed(packets: Seq<Seq<u8>>, k: int)
    requires
        0 <= k <= packets.len(),
        spec_gather(packets.take(k)) is None,
    ensures
        spec_gather(packets) is None,
    decreases packets.len() - k,
{
    if k < packets.len() {
        assert(packets.take(k + 1).drop_last() =~= packets.take(k));
        lemma_gather_stays_failed(packets, k + 1);
    } else {
        assert(packets.take(k) =~= packets);
    }
}

/// The frames before position `k` take no more bytes than all of them.
proof fn lemma_concat_prefix_len(frames: Seq<Seq<u8>>, k: int)
    requires
        0 <= k <= frames.len(),
    ensures
        concat(frames.take(k)).len() <= concat(frames).len(),
    decreases frames.len(),
{
    if k < frames.len() {
        assert(frames.take(k) =~= frames.drop_last().take(k));
        lemma_concat_prefix_len(frames.drop_last(), k);
    } else {
        assert(frames.take(k) =~= frames);
    }
}

/// Pad a given Opus packet to a larger size.
///
/// The packet will be extended from the first `prev_len` bytes of the
/// buffer into the rest of the available space.
pub fn pad(packet: &mut [u8], prev_len: usize) -> (r: Result<usize, Error>)
    requires
        old(packet)@.len() <= MAX_NATIVE_LEN,
        prev_len <= MAX_NATIVE_LEN,
    ensures
        prev_len < 1 || prev_len > old(packet)@.len() ==> r is Err && r->Err_0.spec_code()
            == ErrorCode::BadArg,
        1 <= prev_len == old(packet)@.len() ==> r == Ok::<usize, Error>(0) && final(packet)@ == old(
            packet,
        )@,
        1 <= prev_len < old(packet)@.len() ==> {
            let p = old(packet)@.take(prev_len as int);
            if !spec_can_cat(0, Seq::empty(), p) {
                r is Err && r->Err_0.spec_code() == ErrorCode::InvalidPacket
            } else {
                let q = spec_padded_packet(p[0], spec_frames(p), old(packet)@.len() as int);
                &&& q is Some
                &&& r == Ok::<usize, Error>(0)
                &&& final(packet)@ == q->Some_0
            }
        },
        r is Err ==> final(packet)@ == old(packet)@ && r->Err_0.spec_function() == "opus_packet_pad"@,
{
    if prev_len < 1 || prev_len > packet.len() {
        return Err(Error::bad_arg("opus_packet_pad"));
    }
    if prev_len == packet.len() {
        return Ok(0);
    }
    let copy = slice_to_vec(slice_subrange(packet, 0, prev_len));
    let ghost p = old(packet)@.take(prev_len as int);
    assert(copy@ =~= p);
    let mut rp = Repacketizer {};
    let mut state = rp.begin();
    if let Err(e) = state.cat(copy.as_slice()) {
        return Err(e.with_function("opus_packet_pad"));
    }
    proof {
        assert(state.frames() =~= spec_frames(p));
        lemma_repack_fits(p);
        lemma_code3_len(p[0], spec_frames(p));
    }
    match state.emit_padded(packet, "opus_packet_pad") {
        Ok(()) => Ok(0),
        Err(e) => Err(e),
    }
}

/// Remove all padding from a given Opus packet and rewrite the TOC sequence
/// to minimize space usage.
pub fn unpad(packet: &mut [u8]) -> (r: Result<usize, Error>)
    requires
        old(packet)@.len() <= MAX_NATIVE_LEN,
    ensures
        old(packet)@.len() < 1 ==> r is Err && r->Err_0.spec_code() == ErrorCode::BadArg,
        old(packet)@.len() >= 1 && !spec_can_cat(0, Seq::empty(), old(packet)@) ==> r is Err
            && r->Err_0.spec_code() == ErrorCode::InvalidPacket,
        spec_can_cat(0, Seq::empty(), old(packet)@) ==> {
            let pk = spec_packet_of(old(packet)@[0], spec_frames(old(packet)@));
            &&& pk.len() <= old(packet)@.len()
            &&& r == Ok::<usize, Error>(pk.len() as usize)
            &&& final(packet)@ == pk + old(packet)@.subrange(pk.len() as int, old(packet)@.len() as int)
        },
        r is Err ==> final(packet)@ == old(packet)@ && r->Err_0.spec_function()
            == "opus_packet_unpad"@,
{
    if packet.len() < 1 {
        return Err(Error::bad_arg("opus_packet_unpad"));
    }
    let copy = slice_to_vec(packet);
    let mut rp = Repacketizer {};
    let mut state = rp.begin();
    if let Err(e) = state.cat(copy.as_slice()) {
        return Err(e.with_function("opus_packet_unpad"));
    }
    assert(state.frames() =~= spec_frames(old(packet)@));
    proof {
        lemma_repack_fits(old(packet)@);
    }
    match state.out(packet) {
        Ok(n) => Ok(n),
        Err(e) => Err(e.with_function("opus_packet_unpad")),
    }
}

/// Gathering two packets gives as many frames as the two packets announce
/// together.
pub proof fn gathered_frames_add_up(p1: Seq<u8>, p2: Seq<u8>)
    requires
        spec_gather(seq![p1, p2]) is Some,
    ensures
        spec_nb_frames(p1) is Ok,
        spec_nb_frames(p2) is Ok,
        spec_gather(seq![p1, p2])->Some_0.1.len() == spec_nb_frames(p1)->Ok_0 + spec_nb_frames(
            p2,
        )->Ok_0,
{
    reveal_with_fuel(spec_gather, 3);
    let ps = seq![p1, p2];
    assert(ps.drop_last() =~= seq![p1]);
    assert(seq![p1].drop_last() =~= Seq::<Seq<u8>>::empty());
    assert(ps.last() == p2);
    assert(seq![p1].last() == p1);
    lemma_parse_count(p1);
    lemma_parse_count(p2);
}

} // verus!
