use vstd::prelude::*;
use crate::packet::{
    lemma_sum_const, lemma_sum_prefix_le, lemma_sum_take_step, lemma_vbr_sizes_len, repeat,
    spec_frame, spec_frames, spec_padding, spec_parse, spec_size_field, spec_vbr_sizes, sum,
    toc_code, MAX_FRAME_BYTES,
};
use crate::repacketizer::{
    code3_body, concat, same_lengths, size_field, size_fields, spec_header, spec_packet_of,
};
use crate::roundtrip::{lemma_sum_lens, lens};

verus! {

/// The number of bytes that the length field of a frame of `n` bytes takes.
pub open spec fn field_len(n: int) -> int {
    if n < 252 {
        1
    } else {
        2
    }
}

/// The number of bytes that the length fields of frames of the given
/// lengths take.
pub open spec fn fields_len(ls: Seq<int>) -> int
    decreases ls.len(),
{
    if ls.len() == 0 {
        0
    } else {
        fields_len(ls.drop_last()) + field_len(ls.last())
    }
}

proof fn lemma_size_fields_len(fs: Seq<Seq<u8>>)
    ensures
        size_fields(fs).len() == fields_len(lens(fs)),
    decreases fs.len(),
{
    if fs.len() > 0 {
        lemma_size_fields_len(fs.drop_last());
        assert(lens(fs).drop_last() =~= lens(fs.drop_last()));
    }
}

/// The padding run ends no further than the bytes it leaves allow.
proof fn lemma_padding_bound(p: Seq<u8>, i: int, rem: int)
    requires
        spec_padding(p, i, rem) is Some,
        i + rem <= p.len(),
    ensures
        spec_padding(p, i, rem)->Some_0.0 + spec_padding(p, i, rem)->Some_0.1 <= p.len(),
        spec_padding(p, i, rem)->Some_0.0 > i,
    decreases p.len() - i,
{
    if p[i] == 255 {
        lemma_padding_bound(p, i + 1, rem - 1 - 254);
    }
}

/// The length fields of a variable-bitrate packet take at least the bytes
/// that fields of the same lengths written afresh take.
proof fn lemma_vbr_consumed(p: Seq<u8>, i: int, k: int, rem: int, last: int)
    requires
        k >= 0,
        spec_vbr_sizes(p, i, k, rem, last) is Some,
    ensures
        ({
            let (sz, i2, r2, l2) = spec_vbr_sizes(p, i, k, rem, last)->Some_0;
            &&& i2 - i >= fields_len(sz)
            &&& i2 - i == rem - r2
            &&& l2 == last - (i2 - i) - sum(sz)
            &&& forall|j: int| 0 <= j < sz.len() ==> 0 <= #[trigger] sz[j] <= MAX_FRAME_BYTES
        }),
    decreases k,
{
    if k > 0 {
        let (s, b) = spec_size_field(p, i, rem)->Some_0;
        lemma_vbr_consumed(p, i + b, k - 1, rem - b, last - b - s);
        let (rest, i2, r2, l2) = spec_vbr_sizes(p, i + b, k - 1, rem - b, last - b - s)->Some_0;
        let sz = seq![s] + rest;
        lemma_fields_len_front(sz);
        lemma_sum_front(sz);
        assert(sz.skip(1) =~= rest);
        assert(sz[0] == s);
        assert forall|j: int| 0 <= j < sz.len() implies 0 <= #[trigger] sz[j] <= MAX_FRAME_BYTES by {
            if j > 0 {
                assert(sz[j] == rest[j - 1]);
            }
        }
    } else {
        assert(spec_vbr_sizes(p, i, k, rem, last)->Some_0.0 =~= Seq::<int>::empty());
    }
}

proof fn lemma_fields_len_front(ls: Seq<int>)
    requires
        ls.len() > 0,
    ensures
        fields_len(ls) == field_len(ls[0]) + fields_len(ls.skip(1)),
    decreases ls.len(),
{
    if ls.len() == 1 {
        assert(ls.drop_last() =~= Seq::<int>::empty());
        assert(ls.skip(1) =~= Seq::<int>::empty());
    } else {
        lemma_fields_len_front(ls.drop_last());
        assert(ls.drop_last().skip(1) =~= ls.skip(1).drop_last());
        assert(ls.skip(1).last() == ls.last());
        assert(ls.drop_last()[0] == ls[0]);
    }
}

proof fn lemma_sum_front(ls: Seq<int>)
    requires
        ls.len() > 0,
    ensures
        sum(ls) == ls[0] + sum(ls.skip(1)),
    decreases ls.len(),
{
    if ls.len() == 1 {
        assert(ls.drop_last() =~= Seq::<int>::empty());
        assert(ls.skip(1) =~= Seq::<int>::empty());
    } else {
        lemma_sum_front(ls.drop_last());
        assert(ls.drop_last().skip(1) =~= ls.skip(1).drop_last());
        assert(ls.skip(1).last() == ls.last());
        assert(ls.drop_last()[0] == ls[0]);
    }
}

/// The length of a fresh header for frames of the given lengths.
pub open spec fn fresh_header_len(ls: Seq<int>) -> int {
    if ls.len() == 1 {
        1
    } else if ls.len() == 2 && ls[0] == ls[1] {
        1
    } else if ls.len() == 2 {
        1 + field_len(ls[0])
    } else if forall|j: int| 0 <= j < ls.len() ==> #[trigger] ls[j] == ls[0] {
        2
    } else {
        2 + fields_len(ls.drop_last())
    }
}

/// What the parser found of a packet: where the payload starts, what the
/// frames take together, and that a fresh header would be no longer.
pub open spec fn layout_fits(p: Seq<u8>) -> bool {
    let (sizes, off) = spec_parse(p)->Some_0;
    &&& off >= 1
    &&& off + sum(sizes) <= p.len()
    &&& fresh_header_len(sizes) <= off
    &&& forall|j: int| 0 <= j < sizes.len() ==> 0 <= #[trigger] sizes[j] <= MAX_FRAME_BYTES
}

#[verifier::rlimit(40)]
proof fn lemma_layout_few(p: Seq<u8>)
    requires
        spec_parse(p) is Some,
        toc_code(p[0]) != 3,
    ensures
        layout_fits(p),
{
    reveal_with_fuel(sum, 3);
    let len = p.len() - 1;
    if toc_code(p[0]) == 0 {
        assert(seq![len].drop_last() =~= Seq::<int>::empty());
    } else if toc_code(p[0]) == 1 {
        assert(seq![len / 2, len / 2].drop_last() =~= seq![len / 2]);
        assert(seq![len / 2].drop_last() =~= Seq::<int>::empty());
    } else {
        let (s, b) = spec_size_field(p, 1, len)->Some_0;
        let last = len - b - s;
        assert(seq![s, last].drop_last() =~= seq![s]);
        assert(seq![s].drop_last() =~= Seq::<int>::empty());
        assert(b == 1 ==> s < 252);
    }
}

#[verifier::rlimit(60)]
proof fn lemma_layout_many(p: Seq<u8>)
    requires
        spec_parse(p) is Some,
        toc_code(p[0]) == 3,
    ensures
        layout_fits(p),
{
    let len = p.len() - 1;
    let ch = p[1];
    let count = ch as int % 64;
    let padded = if (ch as int / 64) % 2 == 1 {
        spec_padding(p, 2, len - 1)
    } else {
        Some((2int, len - 1))
    };
    if (ch as int / 64) % 2 == 1 {
        lemma_padding_bound(p, 2, len - 1);
    }
    let (i, rem) = padded->Some_0;
    assert(i >= 2 && i + rem <= p.len());
    let (sizes, off) = spec_parse(p)->Some_0;
    if ch >= 128 {
        lemma_vbr_consumed(p, i, count - 1, rem, rem);
        let (sz, i2, r2, l2) = spec_vbr_sizes(p, i, count - 1, rem, rem)->Some_0;
        lemma_vbr_sizes_len(p, i, count - 1, rem, rem);
        assert(sizes == sz.push(l2));
        assert(sizes.drop_last() =~= sz);
        assert(sizes.last() == l2);
        assert(sum(sizes) == sum(sz) + l2);
        assert forall|j: int| 0 <= j < sizes.len() implies 0 <= #[trigger] sizes[j] <= MAX_FRAME_BYTES by {
            if j < sz.len() {
                assert(sizes[j] == sz[j]);
            }
        }
        if sizes.len() == 2 {
            reveal_with_fuel(fields_len, 2);
            assert(sz.drop_last() =~= Seq::<int>::empty());
            assert(fields_len(sz) == field_len(sz[0]));
            assert(sizes[0] == sz[0]);
        } else if sizes.len() > 2 {
            lemma_fields_len_nonneg(sz);
            assert(fresh_header_len(sizes) <= 2 + fields_len(sz));
        }
        assert(off == i2);
        assert(off + sum(sizes) <= p.len());
        assert(fresh_header_len(sizes) <= off);
    } else {
        let last = rem / count;
        lemma_sum_const(count as nat, last);
        assert(sizes == repeat(count as nat, last));
        assert(forall|j: int| 0 <= j < sizes.len() ==> #[trigger] sizes[j] == last);
        assert(last * count == rem);
        assert(count * last == rem) by (nonlinear_arith)
            requires
                last * count == rem,
        ;
        assert(off == i);
        assert(off + sum(sizes) <= p.len());
        assert(fresh_header_len(sizes) <= 2);
    }
}

/// The frames of a well-formed packet have the lengths that the parser found.
proof fn lemma_frame_lens(p: Seq<u8>)
    requires
        spec_parse(p) is Some,
        layout_fits(p),
    ensures
        lens(spec_frames(p)) == spec_parse(p)->Some_0.0,
{
    let (sizes, off) = spec_parse(p)->Some_0;
    assert forall|j: int| 0 <= j < sizes.len() implies #[trigger] lens(spec_frames(p))[j] == sizes[j] by {
        lemma_sum_take_step(sizes, j);
        lemma_sum_prefix_le(sizes, j + 1);
        assert(sizes[j] >= 0);
        lemma_sum_nonneg(sizes.take(j));
        assert(spec_frames(p)[j] == spec_frame(p, j));
        assert(lens(spec_frames(p))[j] == spec_frames(p)[j].len());
    }
    assert(lens(spec_frames(p)) =~= sizes);
}

/// Length fields take no negative number of bytes.
proof fn lemma_fields_len_nonneg(ls: Seq<int>)
    ensures
        fields_len(ls) >= 0,
    decreases ls.len(),
{
    if ls.len() > 0 {
        lemma_fields_len_nonneg(ls.drop_last());
    }
}

/// Non-negative sizes have a non-negative sum.
proof fn lemma_sum_nonneg(s: Seq<int>)
    requires
        forall|k: int| 0 <= k < s.len() ==> s[k] >= 0,
    ensures
        sum(s) >= 0,
    decreases s.len(),
{
    if s.len() > 0 {
        lemma_sum_nonneg(s.drop_last());
    }
}

/// The bytes of frames, one after another, number the sum of their lengths.
proof fn lemma_concat_len(fs: Seq<Seq<u8>>)
    ensures
        concat(fs).len() == sum(lens(fs)),
{
    lemma_sum_lens(fs, fs.len() as int);
    assert(fs.take(fs.len() as int) =~= fs);
    assert(lens(fs).take(fs.len() as int) =~= lens(fs));
}

/// The header of a packet has the length that the frames' lengths decide.
proof fn lemma_header_len(toc: u8, fs: Seq<Seq<u8>>)
    requires
        fs.len() >= 1,
    ensures
        spec_header(toc, fs).len() == fresh_header_len(lens(fs)),
{
    lemma_size_fields_len(fs.drop_last());
    assert(lens(fs.drop_last()) =~= lens(fs).drop_last());
    if fs.len() > 2 {
        if same_lengths(fs) {
            assert(forall|j: int| 0 <= j < fs.len() ==> #[trigger] lens(fs)[j] == lens(fs)[0]);
        } else {
            let j = choose|j: int| 0 <= j < fs.len() && #[trigger] fs[j].len() != fs[0].len();
            assert(lens(fs)[j] != lens(fs)[0]);
        }
    }
}

/// Repacking the frames of a well-formed packet never takes more bytes than
/// the packet: a fresh header is no longer than the packet's own, and
/// padding is left out.
pub proof fn lemma_repack_fits(p: Seq<u8>)
    requires
        spec_parse(p) is Some,
    ensures
        spec_packet_of(p[0], spec_frames(p)).len() <= p.len(),
{
    if toc_code(p[0]) == 3 {
        lemma_layout_many(p);
    } else {
        lemma_layout_few(p);
    }
    lemma_frame_lens(p);
    let fs = spec_frames(p);
    lemma_concat_len(fs);
    lemma_header_len(p[0], fs);
}

/// A packet with a frame count byte takes at most one byte more than the
/// packet that carries the same frames in the shortest form.
pub proof fn lemma_code3_len(toc: u8, fs: Seq<Seq<u8>>)
    requires
        fs.len() >= 1,
    ensures
        2 + code3_body(fs).len() + concat(fs).len() <= spec_packet_of(toc, fs).len() + 1,
{
    reveal_with_fuel(size_fields, 2);
    if fs.len() == 1 {
        assert(same_lengths(fs));
    } else if fs.len() == 2 {
        if fs[0].len() == fs[1].len() {
            assert(same_lengths(fs)) by {
                assert forall|j: int| 0 <= j < fs.len() implies #[trigger] fs[j].len() == fs[0].len() by {
                    if j == 1 {
                        assert(fs[1].len() == fs[0].len());
                    }
                }
            }
        } else {
            assert(!same_lengths(fs)) by {
                assert(fs[1].len() != fs[0].len());
            }
            assert(fs.drop_last().drop_last() =~= Seq::<Seq<u8>>::empty());
            assert(fs.drop_last().last() == fs[0]);
            assert(size_fields(fs.drop_last()) =~= size_field(fs[0].len() as int));
        }
    }
}

} // verus!
