use vstd::prelude::*;
use crate::packet::{
    spec_frame, spec_frames, spec_padding, spec_parse, spec_parse_code3, spec_size_field, spec_vbr_sizes, sum, toc_code, toc_config,
    toc_samples_per_frame, MAX_FRAMES, MAX_FRAME_BYTES,
};
use crate::repacketizer::{
    concat, same_config, same_lengths, size_field, size_fields, spec_can_cat, spec_gather,
    spec_header, spec_packet_of,
};

verus! {

/// Frames that one packet can carry under the configuration of `toc`: at
/// least one, at most 48, none over 1275 bytes, at most 120 ms in all.
pub open spec fn valid_frames(toc: u8, frames: Seq<Seq<u8>>) -> bool {
    &&& 1 <= frames.len() <= MAX_FRAMES
    &&& forall|j: int| 0 <= j < frames.len() ==> #[trigger] frames[j].len() <= MAX_FRAME_BYTES
    &&& frames.len() * toc_samples_per_frame(toc, 8000) <= 960
}

/// The lengths of a sequence of frames.
pub open spec fn lens(frames: Seq<Seq<u8>>) -> Seq<int> {
    frames.map_values(|f: Seq<u8>| f.len() as int)
}

proof fn lemma_concat_split(fs: Seq<Seq<u8>>, k: int)
    requires
        0 <= k <= fs.len(),
    ensures
        concat(fs) == concat(fs.take(k)) + concat(fs.skip(k)),
    decreases fs.len(),
{
    if k == fs.len() {
        assert(fs.take(k) =~= fs);
        assert(fs.skip(k) =~= Seq::<Seq<u8>>::empty());
        assert(concat(fs) + Seq::<u8>::empty() =~= concat(fs));
    } else {
        let dl = fs.drop_last();
        lemma_concat_split(dl, k);
        assert(dl.take(k) =~= fs.take(k));
        assert(fs.skip(k).drop_last() =~= dl.skip(k));
        assert(fs.skip(k).last() == fs.last());
        assert(concat(fs) =~= concat(fs.take(k)) + concat(fs.skip(k)));
    }
}

proof fn lemma_size_fields_split(fs: Seq<Seq<u8>>, k: int)
    requires
        0 <= k <= fs.len(),
    ensures
        size_fields(fs) == size_fields(fs.take(k)) + size_fields(fs.skip(k)),
    decreases fs.len(),
{
    if k == fs.len() {
        assert(fs.take(k) =~= fs);
        assert(fs.skip(k) =~= Seq::<Seq<u8>>::empty());
        assert(size_fields(fs) + Seq::<u8>::empty() =~= size_fields(fs));
    } else {
        let dl = fs.drop_last();
        lemma_size_fields_split(dl, k);
        assert(dl.take(k) =~= fs.take(k));
        assert(fs.skip(k).drop_last() =~= dl.skip(k));
        assert(fs.skip(k).last() == fs.last());
        assert(size_fields(fs) =~= size_fields(fs.take(k)) + size_fields(fs.skip(k)));
    }
}

proof fn lemma_front(fs: Seq<Seq<u8>>)
    requires
        fs.len() > 0,
    ensures
        concat(fs) == fs[0] + concat(fs.skip(1)),
        size_fields(fs) == size_field(fs[0].len() as int) + size_fields(fs.skip(1)),
{
    reveal_with_fuel(concat, 2);
    reveal_with_fuel(size_fields, 2);
    lemma_concat_split(fs, 1);
    lemma_size_fields_split(fs, 1);
    let t = fs.take(1);
    assert(t.drop_last() =~= Seq::<Seq<u8>>::empty());
    assert(t.last() == fs[0]);
    assert(concat(t) =~= fs[0]);
    assert(size_fields(t) =~= size_field(fs[0].len() as int));
}

proof fn lemma_read_size_field(p: Seq<u8>, i: int, n: int, rem: int)
    requires
        0 <= n <= MAX_FRAME_BYTES,
        0 <= i,
        i + size_field(n).len() <= p.len(),
        p.subrange(i, i + size_field(n).len()) == size_field(n),
        rem >= size_field(n).len(),
    ensures
        spec_size_field(p, i, rem) == Some((n, size_field(n).len() as int)),
        1 <= size_field(n).len() <= 2,
{
    assert(p[i] == p.subrange(i, i + size_field(n).len())[0]);
    if n >= 252 {
        assert(p[i + 1] == p.subrange(i, i + size_field(n).len())[1]);
    }
}

proof fn lemma_read_vbr(p: Seq<u8>, i: int, fs: Seq<Seq<u8>>, rem: int, last: int)
    requires
        0 <= i,
        i + size_fields(fs).len() <= p.len(),
        p.subrange(i, i + size_fields(fs).len()) == size_fields(fs),
        forall|j: int| 0 <= j < fs.len() ==> #[trigger] fs[j].len() <= MAX_FRAME_BYTES,
        rem >= size_fields(fs).len() + concat(fs).len(),
    ensures
        spec_vbr_sizes(p, i, fs.len() as int, rem, last) == Some(
            (
                lens(fs),
                i + size_fields(fs).len(),
                rem - size_fields(fs).len(),
                last - size_fields(fs).len() - concat(fs).len(),
            ),
        ),
    decreases fs.len(),
{
    if fs.len() == 0 {
        assert(lens(fs) =~= Seq::<int>::empty());
    } else {
        let f0 = fs[0];
        let rest = fs.skip(1);
        lemma_front(fs);
        let sf0 = size_field(f0.len() as int);
        let b = sf0.len() as int;
        assert(size_fields(fs).subrange(0, b) =~= sf0);
        assert(size_fields(fs).subrange(b, b + size_fields(rest).len()) =~= size_fields(rest));
        assert(p.subrange(i, i + b) =~= p.subrange(i, i + size_fields(fs).len()).subrange(0, b));
        lemma_read_size_field(p, i, f0.len() as int, rem);
        assert(p.subrange(i + b, i + b + size_fields(rest).len()) =~= p.subrange(
            i,
            i + size_fields(fs).len(),
        ).subrange(b, b + size_fields(rest).len()));
        assert forall|j: int| 0 <= j < rest.len() implies #[trigger] rest[j].len() <= MAX_FRAME_BYTES by {
            assert(rest[j] == fs[j + 1]);
        }
        lemma_read_vbr(p, i + b, rest, rem - b, last - b - f0.len());
        assert(lens(fs) =~= seq![f0.len() as int] + lens(rest));
    }
}

pub proof fn lemma_sum_lens(fs: Seq<Seq<u8>>, j: int)
    requires
        0 <= j <= fs.len(),
    ensures
        sum(lens(fs).take(j)) == concat(fs.take(j)).len(),
    decreases j,
{
    if j > 0 {
        lemma_sum_lens(fs, j - 1);
        assert(lens(fs).take(j).drop_last() =~= lens(fs).take(j - 1));
        assert(fs.take(j).drop_last() =~= fs.take(j - 1));
    } else {
        assert(lens(fs).take(0) =~= Seq::<int>::empty());
        assert(fs.take(0) =~= Seq::<Seq<u8>>::empty());
    }
}

/// The frames of a packet made of a header and the frames one after another
/// are the frames themselves.
proof fn lemma_frames_back(x: Seq<u8>, h: Seq<u8>, fs: Seq<Seq<u8>>)
    requires
        x == h + concat(fs),
        spec_parse(x) == Some((lens(fs), h.len() as int)),
    ensures
        spec_frames(x) == fs,
{
    assert forall|j: int| 0 <= j < fs.len() implies spec_frame(x, j) == fs[j] by {
        lemma_sum_lens(fs, j);
        lemma_sum_lens(fs, j + 1);
        lemma_concat_split(fs, j + 1);
        assert(fs.take(j + 1).drop_last() =~= fs.take(j));
        assert(fs.take(j + 1).last() == fs[j]);
        let a = concat(fs.take(j)).len() as int;
        assert(x.subrange(h.len() + a, h.len() + a + fs[j].len()) =~= fs[j]);
    }
    assert(spec_frames(x) =~= fs);
}

proof fn lemma_toc_byte(toc: u8, c: int)
    requires
        0 <= c < 4,
    ensures
        toc_code((toc as int / 4 * 4 + c) as u8) == c,
        toc_config((toc as int / 4 * 4 + c) as u8) == toc_config(toc),
        same_config((toc as int / 4 * 4 + c) as u8, toc),
        ((toc as int / 4 * 4 + c) as u8) as int / 4 * 4 == toc as int / 4 * 4,
{
}

/// The frame count code and frame count byte of a packet of three or more
/// frames lead the parser to their lengths.
#[verifier::rlimit(60)]
proof fn lemma_parse_many(toc: u8, fs: Seq<Seq<u8>>)
    requires
        valid_frames(toc, fs),
        fs.len() > 2,
    ensures
        spec_parse_code3(spec_packet_of(toc, fs)) == Some(
            (lens(fs), spec_header(toc, fs).len() as int),
        ),
{
    let x = spec_packet_of(toc, fs);
    let h = spec_header(toc, fs);
    let n = fs.len();
    let same = same_lengths(fs);
    let ch: int = n + if same {
        0int
    } else {
        128int
    };
    lemma_toc_byte(toc, 3);
    assert(x[0] == h[0]);
    assert(x[1] == h[1]);
    assert(x[1] as int == ch);
    assert(x[1] as int % 64 == n);
    assert((x[1] as int / 64) % 2 == 0);
    assert(toc_samples_per_frame(x[0], 48000) == 6 * toc_samples_per_frame(toc, 8000));
    assert(n * toc_samples_per_frame(x[0], 48000) <= 5760) by (nonlinear_arith)
        requires
            toc_samples_per_frame(x[0], 48000) == 6 * toc_samples_per_frame(toc, 8000),
            n * toc_samples_per_frame(toc, 8000) <= 960,
    ;
    let rem = x.len() - 2;
    if same {
        let l = fs[0].len() as int;
        assert(lens(fs) =~= crate::packet::repeat(n as nat, l));
        lemma_concat_len_same(fs);
        assert(rem == n * l);
        assert((n * l) / (n as int) == l) by (nonlinear_arith)
            requires
                n > 0,
        ;
        assert(h.len() == 2);
        assert(x[1] < 128);
        assert(l * n == rem) by (nonlinear_arith)
            requires
                rem == n * l,
        ;
        assert(toc_samples_per_frame(x[0], 48000) * n <= 5760) by (nonlinear_arith)
            requires
                n * toc_samples_per_frame(x[0], 48000) <= 5760,
        ;
        assert(l <= MAX_FRAME_BYTES);
        assert(spec_parse_code3(x) == Some((crate::packet::repeat(n as nat, l), 2int)));
    } else {
        lemma_parse_many_vbr(toc, fs);
    }
}

/// The frame count byte and length fields of a packet of three or more
/// frames of different lengths lead the parser to their lengths.
#[verifier::rlimit(60)]
proof fn lemma_parse_many_vbr(toc: u8, fs: Seq<Seq<u8>>)
    requires
        valid_frames(toc, fs),
        fs.len() > 2,
        !same_lengths(fs),
    ensures
        spec_parse_code3(spec_packet_of(toc, fs)) == Some(
            (lens(fs), spec_header(toc, fs).len() as int),
        ),
{
    let x = spec_packet_of(toc, fs);
    let h = spec_header(toc, fs);
    let n = fs.len();
    lemma_toc_byte(toc, 3);
    assert(x[0] == h[0]);
    assert(x[1] == h[1]);
    assert(x[1] as int == n + 128);
    assert(x[1] as int % 64 == n);
    assert((x[1] as int / 64) % 2 == 0);
    assert(toc_samples_per_frame(x[0], 48000) == 6 * toc_samples_per_frame(toc, 8000));
    assert(toc_samples_per_frame(x[0], 48000) * n <= 5760) by (nonlinear_arith)
        requires
            toc_samples_per_frame(x[0], 48000) == 6 * toc_samples_per_frame(toc, 8000),
            n * toc_samples_per_frame(toc, 8000) <= 960,
    ;
    let rem = x.len() - 2;
    let dl = fs.drop_last();
    let sf = size_fields(dl);
    assert(h =~= seq![h[0], h[1]] + sf);
    assert(x.subrange(2, 2 + sf.len() as int) =~= sf);
    assert forall|j: int| 0 <= j < dl.len() implies #[trigger] dl[j].len() <= MAX_FRAME_BYTES by {
        assert(dl[j] == fs[j]);
    }
    assert(concat(fs) == concat(dl) + fs.last());
    lemma_read_vbr(x, 2, dl, rem, rem);
    assert(lens(fs) =~= lens(dl).push(fs.last().len() as int));
    assert(fs.last().len() <= MAX_FRAME_BYTES);
    assert(h.len() == 2 + sf.len());
    assert(rem == sf.len() + concat(fs).len());
    assert(dl.len() == n - 1);
    let v = spec_vbr_sizes(x, 2, n - 1, rem, rem);
    assert(v == Some((lens(dl), 2 + sf.len() as int, rem - sf.len(), fs.last().len() as int)));
    let padded = Some((2int, x.len() - 2));
    assert(padded == (if (x[1] as int / 64) % 2 == 1 {
        spec_padding(x, 2, x.len() - 2)
    } else {
        Some((2int, x.len() - 2))
    }));
}

/// The packet that carries one or two frames parses back into their lengths.
#[verifier::rlimit(40)]
proof fn lemma_parse_few(toc: u8, fs: Seq<Seq<u8>>)
    requires
        valid_frames(toc, fs),
        fs.len() <= 2,
    ensures
        spec_parse(spec_packet_of(toc, fs)) == Some((lens(fs), spec_header(toc, fs).len() as int)),
{
    let x = spec_packet_of(toc, fs);
    reveal_with_fuel(concat, 3);
    if fs.len() == 1 {
        lemma_toc_byte(toc, 0);
        assert(fs.drop_last() =~= Seq::<Seq<u8>>::empty());
        assert(concat(fs) =~= fs[0]);
        assert(lens(fs) =~= seq![fs[0].len() as int]);
    } else {
        assert(fs.drop_last().drop_last() =~= Seq::<Seq<u8>>::empty());
        assert(concat(fs) =~= fs[0] + fs[1]);
        assert(lens(fs) =~= seq![fs[0].len() as int, fs[1].len() as int]);
        if fs[0].len() != fs[1].len() {
            lemma_toc_byte(toc, 2);
            let sf = size_field(fs[0].len() as int);
            assert(x.subrange(1, 1 + sf.len() as int) =~= sf);
            lemma_read_size_field(x, 1, fs[0].len() as int, x.len() - 1);
        } else {
            lemma_toc_byte(toc, 1);
            assert((2 * fs[0].len()) as int / 2 == fs[0].len());
        }
    }
}

/// The packet that carries valid frames parses back into those frames.
pub proof fn lemma_parse_packet_of(toc: u8, fs: Seq<Seq<u8>>)
    requires
        valid_frames(toc, fs),
    ensures
        spec_parse(spec_packet_of(toc, fs)) == Some(
            (lens(fs), spec_header(toc, fs).len() as int),
        ),
        spec_frames(spec_packet_of(toc, fs)) == fs,
        same_config(spec_packet_of(toc, fs)[0], toc),
{
    let x = spec_packet_of(toc, fs);
    let h = spec_header(toc, fs);
    if fs.len() <= 2 {
        lemma_parse_few(toc, fs);
        lemma_toc_byte(toc, 0);
        lemma_toc_byte(toc, 1);
        lemma_toc_byte(toc, 2);
    } else {
        lemma_parse_many(toc, fs);
        lemma_toc_byte(toc, 3);
        assert(x[0] == h[0]);
    }
    lemma_frames_back(x, h, fs);
}

proof fn lemma_concat_len_same(fs: Seq<Seq<u8>>)
    requires
        fs.len() > 0,
        same_lengths(fs),
    ensures
        concat(fs).len() == fs.len() * fs[0].len(),
    decreases fs.len(),
{
    if fs.len() > 1 {
        let dl = fs.drop_last();
        assert(dl[0] == fs[0]);
        assert forall|j: int| 0 <= j < dl.len() implies #[trigger] dl[j].len() == dl[0].len() by {
            assert(dl[j] == fs[j]);
        }
        lemma_concat_len_same(dl);
        assert(fs.last().len() == fs[0].len());
        assert(fs.len() * fs[0].len() == dl.len() * fs[0].len() + fs[0].len()) by (nonlinear_arith)
            requires
                fs.len() == dl.len() + 1,
        ;
    } else {
        reveal_with_fuel(concat, 2);
        assert(fs.drop_last() =~= Seq::<Seq<u8>>::empty());
        assert(concat(fs) =~= fs[0]);
    }
}

/// Two configurations that agree give frames of the same duration.
proof fn lemma_same_config_duration(a: u8, b: u8, fs: int)
    requires
        same_config(a, b),
    ensures
        toc_samples_per_frame(a, fs) == toc_samples_per_frame(b, fs),
{
    assert(a as int / 8 == (a as int / 4) / 2);
    assert(b as int / 8 == (b as int / 4) / 2);
}

/// The packet that carries valid frames can join gathered frames of the
/// same configuration, as long as the whole stays within 120 ms.
proof fn lemma_joins(toc: u8, prior_toc: u8, prior: Seq<Seq<u8>>, fs: Seq<Seq<u8>>)
    requires
        valid_frames(toc, fs),
        (prior.len() + fs.len()) * toc_samples_per_frame(toc, 8000) <= 960,
        prior.len() > 0 ==> same_config(prior_toc, toc),
    ensures
        spec_can_cat(prior_toc, prior, spec_packet_of(toc, fs)),
        spec_frames(spec_packet_of(toc, fs)) == fs,
        same_config(spec_packet_of(toc, fs)[0], toc),
{
    let p = spec_packet_of(toc, fs);
    lemma_parse_packet_of(toc, fs);
    lemma_same_config_duration(p[0], toc, 8000);
    if prior.len() > 0 {
        lemma_same_config_duration(prior_toc, toc, 8000);
        assert(same_config(prior_toc, p[0]));
    }
}

proof fn lemma_gather_one(p: Seq<u8>)
    requires
        spec_can_cat(0, Seq::empty(), p),
    ensures
        spec_gather(seq![p]) == Some((p[0], spec_frames(p))),
{
    reveal_with_fuel(spec_gather, 2);
    assert(seq![p].drop_last() =~= Seq::<Seq<u8>>::empty());
    assert(seq![p].last() == p);
    assert(Seq::<Seq<u8>>::empty() + spec_frames(p) =~= spec_frames(p));
}

proof fn lemma_gather_two(p: Seq<u8>, q: Seq<u8>)
    requires
        spec_can_cat(0, Seq::empty(), p),
        spec_can_cat(p[0], spec_frames(p), q),
        spec_frames(p).len() > 0,
    ensures
        spec_gather(seq![p, q]) == Some((p[0], spec_frames(p) + spec_frames(q))),
{
    lemma_gather_one(p);
    assert(seq![p, q].drop_last() =~= seq![p]);
    assert(seq![p, q].last() == q);
}

/// Splitting a combined packet and combining the pieces gives back the same
/// bytes. The packet `x` that carries valid frames, gathered alone, gives
/// back those frames. The packets that carry the frames before `k` and from
/// `k` on, gathered in order, give the same frames under the same
/// configuration, so the packet built from them is `x`, byte for byte.
#[verifier::rlimit(100)]
pub proof fn split_and_recombine(toc: u8, frames: Seq<Seq<u8>>, k: int)
    requires
        valid_frames(toc, frames),
        0 < k < frames.len(),
    ensures
        ({
            let x = spec_packet_of(toc, frames);
            spec_gather(seq![x]) == Some((x[0], frames))
        }),
        ({
            let a = spec_packet_of(toc, frames.take(k));
            let b = spec_packet_of(toc, frames.skip(k));
            let g = spec_gather(seq![a, b]);
            &&& g is Some
            &&& g->Some_0.1 == frames
            &&& spec_packet_of(g->Some_0.0, g->Some_0.1) == spec_packet_of(toc, frames)
        }),
{
    let x = spec_packet_of(toc, frames);
    let front = frames.take(k);
    let back = frames.skip(k);
    let d = toc_samples_per_frame(toc, 8000);
    assert forall|j: int| 0 <= j < front.len() implies #[trigger] front[j].len() <= MAX_FRAME_BYTES by {
        assert(front[j] == frames[j]);
    }
    assert forall|j: int| 0 <= j < back.len() implies #[trigger] back[j].len() <= MAX_FRAME_BYTES by {
        assert(back[j] == frames[k + j]);
    }
    assert(d >= 0);
    assert(front.len() * d <= 960 && back.len() * d <= 960) by (nonlinear_arith)
        requires
            front.len() <= frames.len(),
            back.len() <= frames.len(),
            frames.len() * d <= 960,
            d >= 0,
    ;
    assert(front.len() + back.len() == frames.len());
    lemma_joins(toc, 0, Seq::empty(), frames);
    lemma_gather_one(x);
    lemma_joins(toc, 0, Seq::empty(), front);
    let a = spec_packet_of(toc, front);
    let b = spec_packet_of(toc, back);
    lemma_joins(toc, a[0], front, back);
    lemma_gather_two(a, b);
    assert(front + back =~= frames);
    assert(a[0] as int / 4 * 4 == toc as int / 4 * 4);
    assert(spec_header(a[0], frames) == spec_header(toc, frames));
}

} // verus!
