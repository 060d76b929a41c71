use vstd::prelude::*;

use crate::pipeline::{FrameData, Match, PlayerState, Round};
use crate::ratio::Ratio;

verus! {

/// The little-endian bytes of a `u32`.
pub open spec fn u32_bytes(v: u32) -> Seq<u8> {
    seq![
        (v & 0xff) as u8,
        ((v >> 8) & 0xff) as u8,
        ((v >> 16) & 0xff) as u8,
        ((v >> 24) & 0xff) as u8,
    ]
}

/// The `u32` of four little-endian bytes.
pub open spec fn u32_of_bytes(b0: u8, b1: u8, b2: u8, b3: u8) -> u32 {
    (b0 as u32) | ((b1 as u32) << 8) | ((b2 as u32) << 16) | ((b3 as u32) << 24)
}

/// The little-endian bytes of a `u64`.
pub open spec fn u64_bytes(v: u64) -> Seq<u8> {
    seq![
        (v & 0xff) as u8,
        ((v >> 8) & 0xff) as u8,
        ((v >> 16) & 0xff) as u8,
        ((v >> 24) & 0xff) as u8,
        ((v >> 32) & 0xff) as u8,
        ((v >> 40) & 0xff) as u8,
        ((v >> 48) & 0xff) as u8,
        ((v >> 56) & 0xff) as u8,
    ]
}

/// The `u64` of eight little-endian bytes.
pub open spec fn u64_of_bytes(
    b0: u8,
    b1: u8,
    b2: u8,
    b3: u8,
    b4: u8,
    b5: u8,
    b6: u8,
    b7: u8,
) -> u64 {
    (b0 as u64) | ((b1 as u64) << 8) | ((b2 as u64) << 16) | ((b3 as u64) << 24) | ((b4 as u64)
        << 32) | ((b5 as u64) << 40) | ((b6 as u64) << 48) | ((b7 as u64) << 56)
}

proof fn lemma_u32_bytes_round_trip(v: u32)
    ensures
        u32_of_bytes(
            (v & 0xff) as u8,
            ((v >> 8) & 0xff) as u8,
            ((v >> 16) & 0xff) as u8,
            ((v >> 24) & 0xff) as u8,
        ) == v,
{
    assert((((v & 0xff) as u8) as u32) | ((((v >> 8) & 0xff) as u8) as u32) << 8 | ((((v >> 16)
        & 0xff) as u8) as u32) << 16 | ((((v >> 24) & 0xff) as u8) as u32) << 24 == v)
        by (bit_vector);
}

proof fn lemma_u64_bytes_round_trip(v: u64)
    ensures
        u64_of_bytes(
            (v & 0xff) as u8,
            ((v >> 8) & 0xff) as u8,
            ((v >> 16) & 0xff) as u8,
            ((v >> 24) & 0xff) as u8,
            ((v >> 32) & 0xff) as u8,
            ((v >> 40) & 0xff) as u8,
            ((v >> 48) & 0xff) as u8,
            ((v >> 56) & 0xff) as u8,
        ) == v,
{
    assert((((v & 0xff) as u8) as u64) | ((((v >> 8) & 0xff) as u8) as u64) << 8 | ((((v >> 16)
        & 0xff) as u8) as u64) << 16 | ((((v >> 24) & 0xff) as u8) as u64) << 24 | ((((v >> 32)
        & 0xff) as u8) as u64) << 32 | ((((v >> 40) & 0xff) as u8) as u64) << 40 | ((((v >> 48)
        & 0xff) as u8) as u64) << 48 | ((((v >> 56) & 0xff) as u8) as u64) << 56 == v)
        by (bit_vector);
}

/// A round stripped to its observable content: index and frame sequence.
pub type RoundView = (u32, Seq<FrameData>);

/// A match stripped to its observable content: source bytes, start
/// timestamp, and rounds.
pub type MatchView = (Seq<u8>, u64, Seq<RoundView>);

pub open spec fn round_view(r: Round) -> RoundView {
    (r.round_index, r.frames@)
}

pub open spec fn match_view(m: Match) -> MatchView {
    (m.source_path@, m.start_micros, Seq::new(m.rounds@.len(), |i: int| round_view(m.rounds@[i])))
}

/// The encoding of a fill ratio: numerator then denominator.
pub open spec fn spec_enc_ratio(r: Ratio) -> Seq<u8> {
    u32_bytes(r.num) + u32_bytes(r.den)
}

/// The encoding of one frame record: frame number, timestamp, then both
/// players' health ratios.
pub open spec fn spec_enc_frame(fd: FrameData) -> Seq<u8> {
    u32_bytes(fd.frame_number) + u64_bytes(fd.timestamp_micros) + spec_enc_ratio(
        fd.player1.health_ratio,
    ) + spec_enc_ratio(fd.player2.health_ratio)
}

pub open spec fn spec_enc_frames(frames: Seq<FrameData>) -> Seq<u8>
    decreases frames.len(),
{
    if frames.len() == 0 {
        Seq::empty()
    } else {
        spec_enc_frame(frames[0]) + spec_enc_frames(frames.skip(1))
    }
}

/// The encoding of one round: its index, its frame count, then its frames.
pub open spec fn spec_enc_round(rv: RoundView) -> Seq<u8> {
    u32_bytes(rv.0) + u32_bytes(rv.1.len() as u32) + spec_enc_frames(rv.1)
}

pub open spec fn spec_enc_rounds(rounds: Seq<RoundView>) -> Seq<u8>
    decreases rounds.len(),
{
    if rounds.len() == 0 {
        Seq::empty()
    } else {
        spec_enc_round(rounds[0]) + spec_enc_rounds(rounds.skip(1))
    }
}

/// The encoding of a match: source length and bytes, start timestamp,
/// round count, then the rounds.
pub open spec fn spec_enc_match(mv: MatchView) -> Seq<u8> {
    u32_bytes(mv.0.len() as u32) + mv.0 + u64_bytes(mv.1) + u32_bytes(mv.2.len() as u32)
        + spec_enc_rounds(mv.2)
}

/// Every count stored in the encoding fits its length field.
pub open spec fn match_bounded(mv: MatchView) -> bool {
    &&& mv.0.len() <= u32::MAX
    &&& mv.2.len() <= u32::MAX
    &&& forall|i: int| 0 <= i < mv.2.len() ==> (#[trigger] mv.2[i]).1.len() <= u32::MAX
}

pub open spec fn spec_dec_u32(s: Seq<u8>, pos: int) -> Option<(u32, int)> {
    if 0 <= pos && pos + 4 <= s.len() {
        Some((u32_of_bytes(s[pos], s[pos + 1], s[pos + 2], s[pos + 3]), pos + 4))
    } else {
        None
    }
}

pub open spec fn spec_dec_u64(s: Seq<u8>, pos: int) -> Option<(u64, int)> {
    if 0 <= pos && pos + 8 <= s.len() {
        Some(
            (
                u64_of_bytes(
                    s[pos],
                    s[pos + 1],
                    s[pos + 2],
                    s[pos + 3],
                    s[pos + 4],
                    s[pos + 5],
                    s[pos + 6],
                    s[pos + 7],
                ),
                pos + 8,
            ),
        )
    } else {
        None
    }
}

pub open spec fn spec_dec_ratio(s: Seq<u8>, pos: int) -> Option<(Ratio, int)> {
    match spec_dec_u32(s, pos) {
        None => None,
        Some((num, p1)) => match spec_dec_u32(s, p1) {
            None => None,
            Some((den, p2)) => Some((Ratio { num, den }, p2)),
        },
    }
}

pub open spec fn spec_dec_frame(s: Seq<u8>, pos: int) -> Option<(FrameData, int)> {
    match spec_dec_u32(s, pos) {
        None => None,
        Some((frame_number, p1)) => match spec_dec_u64(s, p1) {
            None => None,
            Some((timestamp_micros, p2)) => match spec_dec_ratio(s, p2) {
                None => None,
                Some((r1, p3)) => match spec_dec_ratio(s, p3) {
                    None => None,
                    Some((r2, p4)) => Some(
                        (
                            FrameData {
                                frame_number,
                                timestamp_micros,
                                player1: PlayerState { health_ratio: r1 },
                                player2: PlayerState { health_ratio: r2 },
                            },
                            p4,
                        ),
                    ),
                },
            },
        },
    }
}

pub open spec fn spec_dec_frames(s: Seq<u8>, pos: int, n: int) -> Option<(Seq<FrameData>, int)>
    decreases n,
{
    if n <= 0 {
        Some((Seq::empty(), pos))
    } else {
        match spec_dec_frame(s, pos) {
            None => None,
            Some((fd, p1)) => match spec_dec_frames(s, p1, n - 1) {
                None => None,
                Some((rest, p2)) => Some((seq![fd] + rest, p2)),
            },
        }
    }
}

pub open spec fn spec_dec_round(s: Seq<u8>, pos: int) -> Option<(RoundView, int)> {
    match spec_dec_u32(s, pos) {
        None => None,
        Some((round_index, p1)) => match spec_dec_u32(s, p1) {
            None => None,
            Some((n, p2)) => match spec_dec_frames(s, p2, n as int) {
                None => None,
                Some((frames, p3)) => Some(((round_index, frames), p3)),
            },
        },
    }
}

pub open spec fn spec_dec_rounds(s: Seq<u8>, pos: int, n: int) -> Option<(Seq<RoundView>, int)>
    decreases n,
{
    if n <= 0 {
        Some((Seq::empty(), pos))
    } else {
        match spec_dec_round(s, pos) {
            None => None,
            Some((rv, p1)) => match spec_dec_rounds(s, p1, n - 1) {
                None => None,
                Some((rest, p2)) => Some((seq![rv] + rest, p2)),
            },
        }
    }
}

pub open spec fn spec_dec_match(s: Seq<u8>, pos: int) -> Option<(MatchView, int)> {
    match spec_dec_u32(s, pos) {
        None => None,
        Some((srclen, p1)) => {
            if p1 + srclen <= s.len() {
                let src = s.subrange(p1, p1 + srclen);
                let p2 = p1 + srclen;
                match spec_dec_u64(s, p2) {
                    None => None,
                    Some((start, p3)) => match spec_dec_u32(s, p3) {
                        None => None,
                        Some((n, p4)) => match spec_dec_rounds(s, p4, n as int) {
                            None => None,
                            Some((rounds, p5)) => Some(((src, start, rounds), p5)),
                        },
                    },
                }
            } else {
                None
            }
        },
    }
}

/// A chunk of a region of `s` that equals a concatenation is itself a
/// subrange equality.
proof fn lemma_subrange_chunk(s: Seq<u8>, pos: int, total: Seq<u8>, off: int, part: Seq<u8>)
    requires
        0 <= pos,
        pos + total.len() <= s.len(),
        s.subrange(pos, pos + total.len() as int) =~= total,
        0 <= off,
        off + part.len() <= total.len(),
        total.subrange(off, off + part.len() as int) =~= part,
    ensures
        s.subrange(pos + off, pos + off + part.len() as int) =~= part,
{
    assert forall|i: int| 0 <= i < part.len() implies s.subrange(
        pos + off,
        pos + off + part.len() as int,
    )[i] == part[i] by {
        assert(s.subrange(pos + off, pos + off + part.len() as int)[i] == s[pos + off + i]);
        assert(s.subrange(pos, pos + total.len() as int)[off + i] == s[pos + off + i]);
        assert(total.subrange(off, off + part.len() as int)[i] == total[off + i]);
    }
}

proof fn lemma_dec_u32_at(s: Seq<u8>, pos: int, v: u32)
    requires
        0 <= pos,
        pos + 4 <= s.len(),
        s.subrange(pos, pos + 4) =~= u32_bytes(v),
    ensures
        spec_dec_u32(s, pos) == Some((v, pos + 4)),
{
    assert(s[pos] == s.subrange(pos, pos + 4)[0]);
    assert(s[pos + 1] == s.subrange(pos, pos + 4)[1]);
    assert(s[pos + 2] == s.subrange(pos, pos + 4)[2]);
    assert(s[pos + 3] == s.subrange(pos, pos + 4)[3]);
    lemma_u32_bytes_round_trip(v);
}

proof fn lemma_dec_u64_at(s: Seq<u8>, pos: int, v: u64)
    requires
        0 <= pos,
        pos + 8 <= s.len(),
        s.subrange(pos, pos + 8) =~= u64_bytes(v),
    ensures
        spec_dec_u64(s, pos) == Some((v, pos + 8)),
{
    assert(s[pos] == s.subrange(pos, pos + 8)[0]);
    assert(s[pos + 1] == s.subrange(pos, pos + 8)[1]);
    assert(s[pos + 2] == s.subrange(pos, pos + 8)[2]);
    assert(s[pos + 3] == s.subrange(pos, pos + 8)[3]);
    assert(s[pos + 4] == s.subrange(pos, pos + 8)[4]);
    assert(s[pos + 5] == s.subrange(pos, pos + 8)[5]);
    assert(s[pos + 6] == s.subrange(pos, pos + 8)[6]);
    assert(s[pos + 7] == s.subrange(pos, pos + 8)[7]);
    lemma_u64_bytes_round_trip(v);
}

proof fn lemma_dec_ratio_at(s: Seq<u8>, pos: int, r: Ratio)
    requires
        0 <= pos,
        pos + 8 <= s.len(),
        s.subrange(pos, pos + 8) =~= spec_enc_ratio(r),
    ensures
        spec_dec_ratio(s, pos) == Some((r, pos + 8)),
{
    lemma_subrange_chunk(s, pos, spec_enc_ratio(r), 0, u32_bytes(r.num));
    lemma_subrange_chunk(s, pos, spec_enc_ratio(r), 4, u32_bytes(r.den));
    lemma_dec_u32_at(s, pos, r.num);
    lemma_dec_u32_at(s, pos + 4, r.den);
}

proof fn lemma_dec_frame_at(s: Seq<u8>, pos: int, fd: FrameData)
    requires
        0 <= pos,
        pos + 28 <= s.len(),
        s.subrange(pos, pos + 28) =~= spec_enc_frame(fd),
    ensures
        spec_dec_frame(s, pos) == Some((fd, pos + 28)),
{
    let total = spec_enc_frame(fd);
    lemma_subrange_chunk(s, pos, total, 0, u32_bytes(fd.frame_number));
    lemma_subrange_chunk(s, pos, total, 4, u64_bytes(fd.timestamp_micros));
    lemma_subrange_chunk(s, pos, total, 12, spec_enc_ratio(fd.player1.health_ratio));
    lemma_subrange_chunk(s, pos, total, 20, spec_enc_ratio(fd.player2.health_ratio));
    lemma_dec_u32_at(s, pos, fd.frame_number);
    lemma_dec_u64_at(s, pos + 4, fd.timestamp_micros);
    lemma_dec_ratio_at(s, pos + 12, fd.player1.health_ratio);
    lemma_dec_ratio_at(s, pos + 20, fd.player2.health_ratio);
}

/// The encoding of a frame sequence is 28 bytes per frame.
proof fn lemma_enc_frames_len(frames: Seq<FrameData>)
    ensures
        spec_enc_frames(frames).len() == 28 * frames.len(),
    decreases frames.len(),
{
    if frames.len() > 0 {
        lemma_enc_frames_len(frames.skip(1));
    }
}

proof fn lemma_dec_frames_at(s: Seq<u8>, pos: int, frames: Seq<FrameData>)
    requires
        0 <= pos,
        pos + spec_enc_frames(frames).len() <= s.len(),
        s.subrange(pos, pos + spec_enc_frames(frames).len() as int) =~= spec_enc_frames(frames),
    ensures
        spec_dec_frames(s, pos, frames.len() as int) == Some(
            (frames, pos + spec_enc_frames(frames).len()),
        ),
    decreases frames.len(),
{
    if frames.len() == 0 {
        assert(frames =~= Seq::<FrameData>::empty());
    } else {
        let total = spec_enc_frames(frames);
        let head = spec_enc_frame(frames[0]);
        let tail = spec_enc_frames(frames.skip(1));
        lemma_enc_frames_len(frames);
        lemma_enc_frames_len(frames.skip(1));
        lemma_subrange_chunk(s, pos, total, 0, head);
        lemma_subrange_chunk(s, pos, total, 28, tail);
        lemma_dec_frame_at(s, pos, frames[0]);
        lemma_dec_frames_at(s, pos + 28, frames.skip(1));
        assert(seq![frames[0]] + frames.skip(1) =~= frames);
    }
}

proof fn lemma_dec_round_at(s: Seq<u8>, pos: int, rv: RoundView)
    requires
        0 <= pos,
        rv.1.len() <= u32::MAX,
        pos + spec_enc_round(rv).len() <= s.len(),
        s.subrange(pos, pos + spec_enc_round(rv).len() as int) =~= spec_enc_round(rv),
    ensures
        spec_dec_round(s, pos) == Some((rv, pos + spec_enc_round(rv).len())),
{
    let total = spec_enc_round(rv);
    lemma_enc_frames_len(rv.1);
    lemma_subrange_chunk(s, pos, total, 0, u32_bytes(rv.0));
    lemma_subrange_chunk(s, pos, total, 4, u32_bytes(rv.1.len() as u32));
    lemma_subrange_chunk(s, pos, total, 8, spec_enc_frames(rv.1));
    lemma_dec_u32_at(s, pos, rv.0);
    lemma_dec_u32_at(s, pos + 4, rv.1.len() as u32);
    lemma_dec_frames_at(s, pos + 8, rv.1);
}

proof fn lemma_dec_rounds_at(s: Seq<u8>, pos: int, rounds: Seq<RoundView>)
    requires
        0 <= pos,
        pos + spec_enc_rounds(rounds).len() <= s.len(),
        s.subrange(pos, pos + spec_enc_rounds(rounds).len() as int) =~= spec_enc_rounds(rounds),
        forall|i: int| 0 <= i < rounds.len() ==> (#[trigger] rounds[i]).1.len() <= u32::MAX,
    ensures
        spec_dec_rounds(s, pos, rounds.len() as int) == Some(
            (rounds, pos + spec_enc_rounds(rounds).len()),
        ),
    decreases rounds.len(),
{
    if rounds.len() == 0 {
        assert(rounds =~= Seq::<RoundView>::empty());
    } else {
        let total = spec_enc_rounds(rounds);
        let head = spec_enc_round(rounds[0]);
        let tail = spec_enc_rounds(rounds.skip(1));
        lemma_subrange_chunk(s, pos, total, 0, head);
        lemma_subrange_chunk(s, pos, total, head.len() as int, tail);
        lemma_dec_round_at(s, pos, rounds[0]);
        assert(forall|i: int|
            0 <= i < rounds.skip(1).len() ==> (#[trigger] rounds.skip(1)[i]).1.len()
                <= u32::MAX);
        lemma_dec_rounds_at(s, pos + head.len() as int, rounds.skip(1));
        assert(seq![rounds[0]] + rounds.skip(1) =~= rounds);
    }
}

/// Round-trip: decoding an encoded match — wherever it stands in a byte
/// stream — reproduces exactly the encoded content: the same source
/// descriptor, start timestamp, round boundaries and per-frame values.
#[verifier::rlimit(80)]
pub proof fn lemma_match_round_trip(mv: MatchView, prefix: Seq<u8>, rest: Seq<u8>)
    requires
        match_bounded(mv),
    ensures
        spec_dec_match(prefix + spec_enc_match(mv) + rest, prefix.len() as int) == Some(
            (mv, prefix.len() + spec_enc_match(mv).len() as int),
        ),
{
    let s = prefix + spec_enc_match(mv) + rest;
    let total = spec_enc_match(mv);
    let pos = prefix.len() as int;
    assert(s.subrange(pos, pos + total.len() as int) =~= total);
    let srclen = mv.0.len() as int;
    lemma_subrange_chunk(s, pos, total, 0, u32_bytes(mv.0.len() as u32));
    lemma_subrange_chunk(s, pos, total, 4, mv.0);
    lemma_subrange_chunk(s, pos, total, 4 + srclen, u64_bytes(mv.1));
    lemma_subrange_chunk(s, pos, total, 12 + srclen, u32_bytes(mv.2.len() as u32));
    lemma_subrange_chunk(s, pos, total, 16 + srclen, spec_enc_rounds(mv.2));
    lemma_dec_u32_at(s, pos, mv.0.len() as u32);
    lemma_dec_u64_at(s, pos + 4 + srclen, mv.1);
    lemma_dec_u32_at(s, pos + 12 + srclen, mv.2.len() as u32);
    lemma_dec_rounds_at(s, pos + 16 + srclen, mv.2);
    assert(spec_dec_u32(s, pos) == Some((mv.0.len() as u32, pos + 4)));
    assert(s.subrange(pos + 4, pos + 4 + srclen) =~= mv.0);
    assert(spec_dec_u64(s, pos + 4 + srclen) == Some((mv.1, pos + 12 + srclen)));
    assert(spec_dec_u32(s, pos + 12 + srclen) == Some((mv.2.len() as u32, pos + 16 + srclen)));
    assert(spec_dec_rounds(s, pos + 16 + srclen, mv.2.len() as int) == Some(
        (mv.2, pos + 16 + srclen + spec_enc_rounds(mv.2).len()),
    ));
    assert(total.len() == 16 + srclen + spec_enc_rounds(mv.2).len());
    assert((mv.0, mv.1, mv.2) == mv);
}

/// Append the little-endian bytes of a `u32`.
pub fn push_u32(out: &mut Vec<u8>, v: u32)
    ensures
        final(out)@ == old(out)@ + u32_bytes(v),
{
    out.push((v & 0xff) as u8);
    out.push(((v >> 8) & 0xff) as u8);
    out.push(((v >> 16) & 0xff) as u8);
    out.push(((v >> 24) & 0xff) as u8);
    proof {
        assert(out@ =~= old(out)@ + u32_bytes(v));
    }
}

/// Append the little-endian bytes of a `u64`.
pub fn push_u64(out: &mut Vec<u8>, v: u64)
    ensures
        final(out)@ == old(out)@ + u64_bytes(v),
{
    out.push((v & 0xff) as u8);
    out.push(((v >> 8) & 0xff) as u8);
    out.push(((v >> 16) & 0xff) as u8);
    out.push(((v >> 24) & 0xff) as u8);
    out.push(((v >> 32) & 0xff) as u8);
    out.push(((v >> 40) & 0xff) as u8);
    out.push(((v >> 48) & 0xff) as u8);
    out.push(((v >> 56) & 0xff) as u8);
    proof {
        assert(out@ =~= old(out)@ + u64_bytes(v));
    }
}

fn push_ratio(out: &mut Vec<u8>, r: Ratio)
    ensures
        final(out)@ == old(out)@ + spec_enc_ratio(r),
{
    push_u32(out, r.num);
    push_u32(out, r.den);
    proof {
        assert(out@ =~= old(out)@ + spec_enc_ratio(r));
    }
}

fn push_frame(out: &mut Vec<u8>, fd: &FrameData)
    ensures
        final(out)@ == old(out)@ + spec_enc_frame(*fd),
{
    push_u32(out, fd.frame_number);
    push_u64(out, fd.timestamp_micros);
    push_ratio(out, fd.player1.health_ratio);
    push_ratio(out, fd.player2.health_ratio);
    proof {
        assert(out@ =~= old(out)@ + spec_enc_frame(*fd));
    }
}

proof fn lemma_enc_frames_push(frames: Seq<FrameData>, fd: FrameData)
    ensures
        spec_enc_frames(frames.push(fd)) == spec_enc_frames(frames) + spec_enc_frame(fd),
    decreases frames.len(),
{
    assert(frames.push(fd)[0] == if frames.len() == 0 {
        fd
    } else {
        frames[0]
    });
    if frames.len() == 0 {
        assert(frames.push(fd).skip(1) =~= Seq::<FrameData>::empty());
        assert(spec_enc_frames(Seq::<FrameData>::empty()) == Seq::<u8>::empty());
        assert(spec_enc_frames(frames.push(fd)) == spec_enc_frame(fd) + Seq::<u8>::empty());
        assert(spec_enc_frame(fd) + Seq::<u8>::empty() =~= Seq::<u8>::empty() + spec_enc_frame(
            fd,
        ));
    } else {
        assert(frames.push(fd).skip(1) =~= frames.skip(1).push(fd));
        lemma_enc_frames_push(frames.skip(1), fd);
        assert(spec_enc_frames(frames.push(fd)) == spec_enc_frame(frames[0]) + (spec_enc_frames(
            frames.skip(1),
        ) + spec_enc_frame(fd)));
        assert(spec_enc_frame(frames[0]) + (spec_enc_frames(frames.skip(1)) + spec_enc_frame(fd))
            =~= (spec_enc_frame(frames[0]) + spec_enc_frames(frames.skip(1))) + spec_enc_frame(
            fd,
        ));
    }
}

proof fn lemma_enc_rounds_push(rounds: Seq<RoundView>, rv: RoundView)
    ensures
        spec_enc_rounds(rounds.push(rv)) == spec_enc_rounds(rounds) + spec_enc_round(rv),
    decreases rounds.len(),
{
    assert(rounds.push(rv)[0] == if rounds.len() == 0 {
        rv
    } else {
        rounds[0]
    });
    if rounds.len() == 0 {
        assert(rounds.push(rv).skip(1) =~= Seq::<RoundView>::empty());
        assert(spec_enc_rounds(Seq::<RoundView>::empty()) == Seq::<u8>::empty());
        assert(spec_enc_rounds(rounds.push(rv)) == spec_enc_round(rv) + Seq::<u8>::empty());
        assert(spec_enc_round(rv) + Seq::<u8>::empty() =~= Seq::<u8>::empty() + spec_enc_round(
            rv,
        ));
    } else {
        assert(rounds.push(rv).skip(1) =~= rounds.skip(1).push(rv));
        lemma_enc_rounds_push(rounds.skip(1), rv);
        assert(spec_enc_rounds(rounds.push(rv)) == spec_enc_round(rounds[0]) + (spec_enc_rounds(
            rounds.skip(1),
        ) + spec_enc_round(rv)));
        assert(spec_enc_round(rounds[0]) + (spec_enc_rounds(rounds.skip(1)) + spec_enc_round(rv))
            =~= (spec_enc_round(rounds[0]) + spec_enc_rounds(rounds.skip(1))) + spec_enc_round(
            rv,
        ));
    }
}

fn push_frames(out: &mut Vec<u8>, frames: &Vec<FrameData>)
    ensures
        final(out)@ == old(out)@ + spec_enc_frames(frames@),
{
    let mut i: usize = 0;
    while i < frames.len()
        invariant
            i <= frames@.len(),
            out@ == old(out)@ + spec_enc_frames(frames@.take(i as int)),
        decreases frames@.len() - i,
    {
        push_frame(out, &frames[i]);
        proof {
            assert(frames@.take(i + 1) =~= frames@.take(i as int).push(frames@[i as int]));
            lemma_enc_frames_push(frames@.take(i as int), frames@[i as int]);
        }
        i = i + 1;
    }
    proof {
        assert(frames@.take(frames@.len() as int) =~= frames@);
    }
}

fn push_round(out: &mut Vec<u8>, r: &Round)
    requires
        r.frames@.len() <= u32::MAX,
    ensures
        final(out)@ == old(out)@ + spec_enc_round(round_view(*r)),
{
    push_u32(out, r.round_index);
    push_u32(out, r.frames.len() as u32);
    push_frames(out, &r.frames);
    proof {
        assert(out@ =~= old(out)@ + spec_enc_round(round_view(*r)));
    }
}

/// Serialize a match into its byte encoding.
pub fn encode_match(m: &Match) -> (out: Vec<u8>)
    requires
        match_bounded(match_view(*m)),
    ensures
        out@ == spec_enc_match(match_view(*m)),
{
    let ghost mv = match_view(*m);
    let mut out: Vec<u8> = Vec::new();
    push_u32(&mut out, m.source_path.len() as u32);
    let mut i: usize = 0;
    while i < m.source_path.len()
        invariant
            i <= m.source_path@.len(),
            out@ == u32_bytes(m.source_path@.len() as u32) + m.source_path@.take(i as int),
        decreases m.source_path@.len() - i,
    {
        out.push(m.source_path[i]);
        proof {
            assert(m.source_path@.take(i + 1) =~= m.source_path@.take(i as int).push(
                m.source_path@[i as int],
            ));
            assert(out@ =~= u32_bytes(m.source_path@.len() as u32) + m.source_path@.take(i + 1));
        }
        i = i + 1;
    }
    proof {
        assert(m.source_path@.take(m.source_path@.len() as int) =~= m.source_path@);
    }
    push_u64(&mut out, m.start_micros);
    push_u32(&mut out, m.rounds.len() as u32);

    let ghost base = out@;
    let mut k: usize = 0;
    while k < m.rounds.len()
        invariant
            k <= m.rounds@.len(),
            mv == match_view(*m),
            match_bounded(mv),
            base == u32_bytes(m.source_path@.len() as u32) + m.source_path@ + u64_bytes(
                m.start_micros,
            ) + u32_bytes(m.rounds@.len() as u32),
            out@ == base + spec_enc_rounds(mv.2.take(k as int)),
        decreases m.rounds@.len() - k,
    {
        proof {
            assert(mv.2[k as int] == round_view(m.rounds@[k as int]));
            assert(mv.2[k as int].1.len() <= u32::MAX);
        }
        push_round(&mut out, &m.rounds[k]);
        proof {
            assert(mv.2.take(k + 1) =~= mv.2.take(k as int).push(mv.2[k as int]));
            lemma_enc_rounds_push(mv.2.take(k as int), mv.2[k as int]);
        }
        k = k + 1;
    }
    proof {
        assert(mv.2.take(mv.2.len() as int) =~= mv.2);
        assert(out@ =~= spec_enc_match(mv));
    }
    out
}

/// Read four little-endian bytes as a `u32`.
pub fn read_u32(bytes: &Vec<u8>, pos: usize) -> (r: Option<(u32, usize)>)
    ensures
        match r {
            Some((v, p)) => spec_dec_u32(bytes@, pos as int) == Some((v, p as int)),
            None => spec_dec_u32(bytes@, pos as int) is None,
        },
{
    if pos > bytes.len() || bytes.len() - pos < 4 {
        return None;
    }
    let v = (bytes[pos] as u32) | ((bytes[pos + 1] as u32) << 8u32) | ((bytes[pos + 2] as u32)
        << 16u32) | ((bytes[pos + 3] as u32) << 24u32);
    Some((v, pos + 4))
}

/// Read eight little-endian bytes as a `u64`.
pub fn read_u64(bytes: &Vec<u8>, pos: usize) -> (r: Option<(u64, usize)>)
    ensures
        match r {
            Some((v, p)) => spec_dec_u64(bytes@, pos as int) == Some((v, p as int)),
            None => spec_dec_u64(bytes@, pos as int) is None,
        },
{
    if pos > bytes.len() || bytes.len() - pos < 8 {
        return None;
    }
    let v = (bytes[pos] as u64) | ((bytes[pos + 1] as u64) << 8u64) | ((bytes[pos + 2] as u64)
        << 16u64) | ((bytes[pos + 3] as u64) << 24u64) | ((bytes[pos + 4] as u64) << 32u64) | ((
    bytes[pos + 5] as u64) << 40u64) | ((bytes[pos + 6] as u64) << 48u64) | ((bytes[pos
        + 7] as u64) << 56u64);
    Some((v, pos + 8))
}

fn read_ratio(bytes: &Vec<u8>, pos: usize) -> (r: Option<(Ratio, usize)>)
    ensures
        match r {
            Some((v, p)) => spec_dec_ratio(bytes@, pos as int) == Some((v, p as int)),
            None => spec_dec_ratio(bytes@, pos as int) is None,
        },
{
    let (num, p1) = match read_u32(bytes, pos) {
        None => {
            return None;
        },
        Some(x) => x,
    };
    let (den, p2) = match read_u32(bytes, p1) {
        None => {
            return None;
        },
        Some(x) => x,
    };
    Some((Ratio { num, den }, p2))
}

fn read_frame(bytes: &Vec<u8>, pos: usize) -> (r: Option<(FrameData, usize)>)
    ensures
        match r {
            Some((v, p)) => spec_dec_frame(bytes@, pos as int) == Some((v, p as int)),
            None => spec_dec_frame(bytes@, pos as int) is None,
        },
{
    let (frame_number, p1) = match read_u32(bytes, pos) {
        None => {
            return None;
        },
        Some(x) => x,
    };
    let (timestamp_micros, p2) = match read_u64(bytes, p1) {
        None => {
            return None;
        },
        Some(x) => x,
    };
    let (r1, p3) = match read_ratio(bytes, p2) {
        None => {
            return None;
        },
        Some(x) => x,
    };
    let (r2, p4) = match read_ratio(bytes, p3) {
        None => {
            return None;
        },
        Some(x) => x,
    };
    Some(
        (
            FrameData {
                frame_number,
                timestamp_micros,
                player1: PlayerState { health_ratio: r1 },
                player2: PlayerState { health_ratio: r2 },
            },
            p4,
        ),
    )
}

fn read_frames(bytes: &Vec<u8>, pos: usize, n: u32) -> (r: Option<(Vec<FrameData>, usize)>)
    ensures
        match r {
            Some((v, p)) => spec_dec_frames(bytes@, pos as int, n as int) == Some(
                (v@, p as int),
            ),
            None => spec_dec_frames(bytes@, pos as int, n as int) is None,
        },
{
    let mut acc: Vec<FrameData> = Vec::new();
    let mut cur = pos;
    let mut k: u32 = 0;
    while k < n
        invariant
            k <= n,
            ({
                let whole = spec_dec_frames(bytes@, pos as int, n as int);
                match spec_dec_frames(bytes@, cur as int, n - k) {
                    Some((sq, p)) => whole == Some((acc@ + sq, p)),
                    None => whole is None,
                }
            }),
        decreases n - k,
    {
        let (fd, p1) = match read_frame(bytes, cur) {
            None => {
                return None;
            },
            Some(x) => x,
        };
        let ghost prev_acc = acc@;
        acc.push(fd);
        proof {
            match spec_dec_frames(bytes@, p1 as int, n - k - 1) {
                Some((rest, p2)) => {
                    assert(prev_acc + (seq![fd] + rest) =~= acc@ + rest);
                },
                None => {},
            }
        }
        cur = p1;
        k = k + 1;
    }
    proof {
        assert(acc@ + Seq::<FrameData>::empty() =~= acc@);
    }
    Some((acc, cur))
}

fn read_round(bytes: &Vec<u8>, pos: usize) -> (r: Option<(Round, usize)>)
    ensures
        match r {
            Some((v, p)) => spec_dec_round(bytes@, pos as int) == Some((round_view(v), p as int)),
            None => spec_dec_round(bytes@, pos as int) is None,
        },
{
    let (round_index, p1) = match read_u32(bytes, pos) {
        None => {
            return None;
        },
        Some(x) => x,
    };
    let (n, p2) = match read_u32(bytes, p1) {
        None => {
            return None;
        },
        Some(x) => x,
    };
    let (frames, p3) = match read_frames(bytes, p2, n) {
        None => {
            return None;
        },
        Some(x) => x,
    };
    Some((Round { round_index, frames }, p3))
}

/// Deserialize one match from the byte stream at `pos`, returning the
/// match and the position just past it; `None` when the bytes do not hold
/// a complete encoding there.
pub fn decode_match(bytes: &Vec<u8>, pos: usize) -> (r: Option<(Match, usize)>)
    ensures
        match r {
            Some((m, p)) => spec_dec_match(bytes@, pos as int) == Some((match_view(m), p as int)),
            None => spec_dec_match(bytes@, pos as int) is None,
        },
{
    let (srclen, p1) = match read_u32(bytes, pos) {
        None => {
            return None;
        },
        Some(x) => x,
    };
    proof {
        assert(p1 <= bytes@.len());
    }
    if srclen as usize > bytes.len() - p1 {
        return None;
    }
    let srclen = srclen as usize;
    proof {
        assert(p1 + srclen <= bytes@.len());
    }
    let mut source_path: Vec<u8> = Vec::new();
    let mut i: usize = 0;
    while i < srclen
        invariant
            p1 + srclen <= bytes@.len(),
            p1 + srclen <= usize::MAX,
            i <= srclen,
            source_path@ == bytes@.subrange(p1 as int, p1 + i),
        decreases srclen - i,
    {
        source_path.push(bytes[p1 + i]);
        proof {
            assert(source_path@ =~= bytes@.subrange(p1 as int, p1 + i + 1));
        }
        i = i + 1;
    }
    let p2 = p1 + srclen;
    let (start_micros, p3) = match read_u64(bytes, p2) {
        None => {
            return None;
        },
        Some(x) => x,
    };
    let (n, p4) = match read_u32(bytes, p3) {
        None => {
            return None;
        },
        Some(x) => x,
    };

    let mut rounds: Vec<Round> = Vec::new();
    let mut cur = p4;
    let mut k: u32 = 0;
    while k < n
        invariant
            k <= n,
            ({
                let whole = spec_dec_rounds(bytes@, p4 as int, n as int);
                let views = Seq::new(rounds@.len(), |j: int| round_view(rounds@[j]));
                match spec_dec_rounds(bytes@, cur as int, n - k) {
                    Some((sq, p)) => whole == Some((views + sq, p)),
                    None => whole is None,
                }
            }),
            ({
                let whole = spec_dec_rounds(bytes@, p4 as int, n as int);
                match whole {
                    Some((sq, p)) => spec_dec_match(bytes@, pos as int) == Some(
                        ((source_path@, start_micros, sq), p),
                    ),
                    None => spec_dec_match(bytes@, pos as int) is None,
                }
            }),
        decreases n - k,
    {
        let (rv, pnext) = match read_round(bytes, cur) {
            None => {
                return None;
            },
            Some(x) => x,
        };
        let ghost prev_views = Seq::new(rounds@.len(), |j: int| round_view(rounds@[j]));
        rounds.push(rv);
        proof {
            let views = Seq::new(rounds@.len(), |j: int| round_view(rounds@[j]));
            assert(views =~= prev_views.push(round_view(rv)));
            match spec_dec_rounds(bytes@, pnext as int, n - k - 1) {
                Some((sq, p)) => {
                    assert(prev_views + (seq![round_view(rv)] + sq) =~= views + sq);
                },
                None => {},
            }
        }
        cur = pnext;
        k = k + 1;
    }

    let m = Match { source_path, start_micros, rounds };
    proof {
        let views = Seq::new(rounds@.len(), |j: int| round_view(rounds@[j]));
        assert(views + Seq::<RoundView>::empty() =~= views);
        assert(match_view(m) == (m.source_path@, m.start_micros, views));
    }
    Some((m, cur))
}

} // verus!
