use vstd::prelude::*;

use crate::analysis::HpReading;
use crate::ratio::Ratio;

verus! {

/// One player's recovered state at one frame.
#[derive(Debug, Clone, Copy, PartialEq, Eq, Structural)]
pub struct PlayerState {
    pub health_ratio: Ratio,
}

/// The readings kept for one analyzed frame.
#[derive(Debug, Clone, Copy, PartialEq, Eq, Structural)]
pub struct FrameData {
    pub frame_number: u32,
    pub timestamp_micros: u64,
    pub player1: PlayerState,
    pub player2: PlayerState,
}

/// An ordered, contiguous run of frames belonging to one bout.
#[derive(Debug, Clone, PartialEq, Eq)]
pub struct Round {
    pub round_index: u32,
    pub frames: Vec<FrameData>,
}

/// An ordered sequence of rounds plus source metadata.
#[derive(Debug, Clone, PartialEq, Eq)]
pub struct Match {
    /// UTF-8 bytes of the source descriptor (e.g. the video file path).
    pub source_path: Vec<u8>,
    /// Timestamp of the first analyzed frame.
    pub start_micros: u64,
    pub rounds: Vec<Round>,
}

/// Parameters for the analysis pipeline.
#[derive(Debug, Clone, PartialEq, Eq)]
pub struct PipelineConfig {
    /// Analyze every Nth decoded frame (1 = every frame).
    pub sample_rate: u32,
    /// Frame number to start decoding from.
    pub start_frame: u32,
    /// Maximum number of frames to process, or None for the entire video.
    pub max_frames: Option<u32>,
    /// Directory to write debug frame images, or None to skip.
    pub debug_frames_dir: Option<String>,
}

impl Default for PipelineConfig {
    /// By default, sample one frame per second of 60 fps footage and
    /// process the whole video.
    fn default() -> (r: PipelineConfig)
        ensures
            r.sample_rate == 60,
            r.start_frame == 0,
            r.max_frames is None,
            r.debug_frames_dir is None,
    {
        PipelineConfig {
            sample_rate: 60,
            start_frame: 0,
            max_frames: None,
            debug_frames_dir: None,
        }
    }
}

impl PipelineConfig {
    /// Whether a decoded frame takes part in analysis: every frame when a
    /// frame cap is set, otherwise every `sample_rate`-th frame.
    pub fn should_analyze(&self, frame_number: u32) -> (r: bool)
        requires
            self.sample_rate >= 1,
        ensures
            r == (self.max_frames is Some || frame_number % self.sample_rate == 0),
    {
        self.max_frames.is_some() || frame_number % self.sample_rate == 0
    }
}

/// Both players' health must be at or above this to count as "full".
pub open spec fn spec_reset_threshold() -> Ratio {
    Ratio { num: 19u32, den: 20u32 }
}

pub fn reset_threshold() -> (r: Ratio)
    ensures
        r == spec_reset_threshold(),
{
    Ratio { num: 19, den: 20 }
}

/// At least one player's health must drop below this to arm round
/// detection.
pub open spec fn spec_damage_threshold() -> Ratio {
    Ratio { num: 1u32, den: 2u32 }
}

pub fn damage_threshold() -> (r: Ratio)
    ensures
        r == spec_damage_threshold(),
{
    Ratio { num: 1, den: 2 }
}

/// Either side's health is below the damage threshold at this frame.
pub open spec fn below_damage(fd: FrameData) -> bool {
    fd.player1.health_ratio.spec_lt(spec_damage_threshold())
        || fd.player2.health_ratio.spec_lt(spec_damage_threshold())
}

/// Both sides' health is at or above the reset threshold at this frame.
pub open spec fn at_reset(fd: FrameData) -> bool {
    !fd.player1.health_ratio.spec_lt(spec_reset_threshold())
        && !fd.player2.health_ratio.spec_lt(spec_reset_threshold())
}

/// The segmentation state after consuming the first `n` frames: whether
/// damage has armed round detection, and the rounds built so far (the last
/// one still open). A frame that resets — damage was seen, then both sides
/// are back at or above the reset threshold — closes the current round and
/// opens a new one that begins with that frame.
pub open spec fn spec_split_state(frames: Seq<FrameData>, n: int) -> (bool, Seq<Seq<FrameData>>)
    decreases n,
{
    if n <= 0 {
        (false, seq![Seq::<FrameData>::empty()])
    } else {
        let prev = spec_split_state(frames, n - 1);
        let fd = frames[n - 1];
        let armed = prev.0 || below_damage(fd);
        if armed && at_reset(fd) {
            (false, prev.1.push(seq![fd]))
        } else {
            (armed, prev.1.update(prev.1.len() - 1, prev.1.last().push(fd)))
        }
    }
}

/// The rounds of a frame sequence; an empty input has no rounds.
pub open spec fn spec_split_into_rounds(frames: Seq<FrameData>) -> Seq<Seq<FrameData>> {
    if frames.len() == 0 {
        Seq::empty()
    } else {
        spec_split_state(frames, frames.len() as int).1
    }
}

/// The round list is never empty while frames are being consumed.
pub proof fn lemma_split_state_len(frames: Seq<FrameData>, n: int)
    ensures
        spec_split_state(frames, n).1.len() >= 1,
        spec_split_state(frames, n).1.len() <= (if n <= 0 {
            1int
        } else {
            n + 1
        }),
    decreases n,
{
    if n > 0 {
        lemma_split_state_len(frames, n - 1);
    }
}

/// The per-round views of a vector of rounds.
pub open spec fn rounds_views(rs: Seq<Vec<FrameData>>) -> Seq<Seq<FrameData>> {
    Seq::new(rs.len(), |i: int| rs[i]@)
}

/// Partition frame data into rounds by detecting health resets.
pub fn split_into_rounds(frames: &Vec<FrameData>) -> (r: Vec<Vec<FrameData>>)
    ensures
        rounds_views(r@) == spec_split_into_rounds(frames@),
{
    if frames.len() == 0 {
        let r: Vec<Vec<FrameData>> = Vec::new();
        proof {
            assert(rounds_views(r@) =~= spec_split_into_rounds(frames@));
        }
        return r;
    }

    let mut rounds: Vec<Vec<FrameData>> = Vec::new();
    rounds.push(Vec::new());
    let mut had_damage = false;
    let mut idx: usize = 0;

    proof {
        assert(rounds_views(rounds@) =~= spec_split_state(frames@, 0).1);
    }

    while idx < frames.len()
        invariant
            idx <= frames@.len(),
            rounds@.len() >= 1,
            had_damage == spec_split_state(frames@, idx as int).0,
            rounds_views(rounds@) == spec_split_state(frames@, idx as int).1,
        decreases frames@.len() - idx,
    {
        let fd = frames[idx];
        let dmg = fd.player1.health_ratio.lt(&damage_threshold())
            || fd.player2.health_ratio.lt(&damage_threshold());
        if dmg {
            had_damage = true;
        }
        let is_reset = had_damage && fd.player1.health_ratio.ge(&reset_threshold())
            && fd.player2.health_ratio.ge(&reset_threshold());

        if is_reset {
            had_damage = false;
            let mut new_round: Vec<FrameData> = Vec::new();
            new_round.push(fd);
            rounds.push(new_round);
            proof {
                assert(rounds_views(rounds@) =~= spec_split_state(frames@, idx + 1).1);
            }
        } else {
            let mut last = rounds.pop().unwrap();
            last.push(fd);
            rounds.push(last);
            proof {
                assert(rounds_views(rounds@) =~= spec_split_state(frames@, idx + 1).1);
            }
        }
        idx = idx + 1;
    }
    rounds
}

pub fn make_round(round_index: u32, frames: Vec<FrameData>) -> (r: Round)
    ensures
        r.round_index == round_index,
        r.frames == frames,
{
    Round { round_index, frames }
}

/// Group a frame sequence into a match: the rounds of the split, indexed
/// in order, plus the source descriptor and the first frame's timestamp.
pub fn segment_into_match(frames: &Vec<FrameData>, source_path: Vec<u8>) -> (m: Match)
    requires
        frames@.len() < u32::MAX,
    ensures
        m.source_path == source_path,
        m.start_micros == (if frames@.len() > 0 {
            frames@[0].timestamp_micros
        } else {
            0u64
        }),
        m.rounds@.len() == spec_split_into_rounds(frames@).len(),
        forall|i: int|
            0 <= i < m.rounds@.len() ==> (#[trigger] m.rounds@[i]).round_index == i
                && m.rounds@[i].frames@ == spec_split_into_rounds(frames@)[i],
{
    let ghost goal = spec_split_into_rounds(frames@);
    let start_micros = if frames.len() > 0 {
        frames[0].timestamp_micros
    } else {
        0
    };

    let mut split = split_into_rounds(frames);
    proof {
        if frames@.len() > 0 {
            lemma_split_state_len(frames@, frames@.len() as int);
        }
        assert(split@.len() == goal.len());
    }
    let mut rounds: Vec<Round> = Vec::new();
    let mut idx: u32 = 0;
    while split.len() > 0
        invariant
            goal == spec_split_into_rounds(frames@),
            goal.len() <= u32::MAX,
            idx as int + split@.len() == goal.len(),
            rounds@.len() == idx,
            forall|k: int|
                0 <= k < idx ==> (#[trigger] rounds@[k]).round_index == k && rounds@[k].frames@
                    == goal[k],
            forall|k: int| 0 <= k < split@.len() ==> #[trigger] split@[k]@ == goal[idx + k],
        decreases split@.len(),
    {
        let f = split.remove(0);
        rounds.push(make_round(idx, f));
        idx = idx + 1;
    }

    Match { source_path, start_micros, rounds }
}

/// Last-value-carried-forward state across frames: the most recent
/// confident health reading of each side.
#[derive(Debug, Clone, Copy, PartialEq, Eq, Structural)]
pub struct CarryState {
    pub last_p1: Option<Ratio>,
    pub last_p2: Option<Ratio>,
}

impl CarryState {
    pub fn new() -> (r: CarryState)
        ensures
            r.last_p1 is None,
            r.last_p2 is None,
    {
        CarryState { last_p1: None, last_p2: None }
    }
}

/// The first of the two options that holds a value.
pub open spec fn opt_or(a: Option<Ratio>, b: Option<Ratio>) -> Option<Ratio> {
    if a is Some {
        a
    } else {
        b
    }
}

/// Fold one frame's HP reading into the carry-forward state: an unreadable
/// side falls back to its last known value, and the frame is skipped
/// entirely (state untouched) while either side has never produced a
/// reading. A side's last known value advances only on a fresh reading.
pub fn record_frame(
    state: &mut CarryState,
    frame_number: u32,
    timestamp_micros: u64,
    hp: &HpReading,
) -> (r: Option<FrameData>)
    ensures
        ({
            let p1 = opt_or(hp.p1, old(state).last_p1);
            let p2 = opt_or(hp.p2, old(state).last_p2);
            match (p1, p2) {
                (Some(a), Some(b)) => {
                    &&& r == Some(
                        FrameData {
                            frame_number,
                            timestamp_micros,
                            player1: PlayerState { health_ratio: a },
                            player2: PlayerState { health_ratio: b },
                        },
                    )
                    &&& final(state).last_p1 == (if hp.p1 is Some {
                        Some(a)
                    } else {
                        old(state).last_p1
                    })
                    &&& final(state).last_p2 == (if hp.p2 is Some {
                        Some(b)
                    } else {
                        old(state).last_p2
                    })
                },
                _ => r is None && *final(state) == *old(state),
            }
        }),
{
    let p1 = match hp.p1 {
        Some(v) => Some(v),
        None => state.last_p1,
    };
    let p2 = match hp.p2 {
        Some(v) => Some(v),
        None => state.last_p2,
    };

    match (p1, p2) {
        (Some(a), Some(b)) => {
            if hp.p1.is_some() {
                state.last_p1 = Some(a);
            }
            if hp.p2.is_some() {
                state.last_p2 = Some(b);
            }
            Some(
                FrameData {
                    frame_number,
                    timestamp_micros,
                    player1: PlayerState { health_ratio: a },
                    player2: PlayerState { health_ratio: b },
                },
            )
        },
        _ => None,
    }
}

/// A frame sequence in which neither side's health ever drops below the
/// damage threshold segments into exactly one round, holding every frame
/// in order.
pub proof fn lemma_no_damage_single_round(frames: Seq<FrameData>)
    requires
        frames.len() > 0,
        forall|i: int| 0 <= i < frames.len() ==> !below_damage(#[trigger] frames[i]),
    ensures
        spec_split_into_rounds(frames).len() == 1,
        spec_split_into_rounds(frames)[0] == frames,
{
    lemma_no_damage_state(frames, frames.len() as int);
    assert(spec_split_state(frames, frames.len() as int).1[0] =~= frames);
}

proof fn lemma_no_damage_state(frames: Seq<FrameData>, n: int)
    requires
        0 <= n <= frames.len(),
        forall|i: int| 0 <= i < frames.len() ==> !below_damage(#[trigger] frames[i]),
    ensures
        !spec_split_state(frames, n).0,
        spec_split_state(frames, n).1.len() == 1,
        spec_split_state(frames, n).1[0] =~= frames.subrange(0, n),
    decreases n,
{
    if n > 0 {
        lemma_no_damage_state(frames, n - 1);
        assert(frames.subrange(0, n) =~= frames.subrange(0, n - 1).push(frames[n - 1]));
    } else {
        assert(spec_split_state(frames, 0).1[0] =~= frames.subrange(0, 0));
    }
}

/// When round detection is armed entering frame `j` (or frame `j` itself
/// shows damage) and frame `j` has both sides back at or above the reset
/// threshold, frame `j` starts a new round: the round count grows by one
/// and the new round begins with exactly that frame.
pub proof fn lemma_reset_starts_new_round(frames: Seq<FrameData>, j: int)
    requires
        0 <= j < frames.len(),
        spec_split_state(frames, j).0 || below_damage(frames[j]),
        at_reset(frames[j]),
    ensures
        spec_split_state(frames, j + 1).1.len() == spec_split_state(frames, j).1.len() + 1,
        spec_split_state(frames, j + 1).1.last() == seq![frames[j]],
        !spec_split_state(frames, j + 1).0,
{
}

/// In the final split of the whole sequence, a frame that resets — damage
/// was armed (or this frame shows it) and both sides are back at or above
/// the reset threshold — is the first frame of the round it belongs to.
pub proof fn lemma_recovery_frame_heads_new_round(frames: Seq<FrameData>, j: int)
    requires
        0 <= j < frames.len(),
        spec_split_state(frames, j).0 || below_damage(frames[j]),
        at_reset(frames[j]),
    ensures
        ({
            let r = spec_split_state(frames, j).1.len() as int;
            &&& r < spec_split_into_rounds(frames).len()
            &&& spec_split_into_rounds(frames)[r].len() >= 1
            &&& spec_split_into_rounds(frames)[r][0] == frames[j]
        }),
{
    let r = spec_split_state(frames, j).1.len() as int;
    lemma_reset_starts_new_round(frames, j);
    lemma_rounds_grow_monotonically(frames, j + 1, frames.len() as int);
    let new_round = spec_split_state(frames, j + 1).1.last();
    let final_round = spec_split_state(frames, frames.len() as int).1[r];
    assert(new_round.is_prefix_of(final_round));
    assert(new_round[0] == final_round.subrange(0, new_round.len() as int)[0]);
}

/// Rounds only ever grow: every closed round of an earlier state is
/// unchanged in any later state, and the open round only gains frames. A
/// round boundary, once created, persists into the final split.
pub proof fn lemma_rounds_grow_monotonically(frames: Seq<FrameData>, n1: int, n2: int)
    requires
        0 <= n1 <= n2,
    ensures
        spec_split_state(frames, n1).1.len() <= spec_split_state(frames, n2).1.len(),
        forall|k: int|
            0 <= k < spec_split_state(frames, n1).1.len() - 1 ==> #[trigger] spec_split_state(
                frames,
                n2,
            ).1[k] == spec_split_state(frames, n1).1[k],
        spec_split_state(frames, n1).1.last().is_prefix_of(
            spec_split_state(frames, n2).1[spec_split_state(frames, n1).1.len() - 1],
        ),
    decreases n2 - n1,
{
    lemma_split_state_len(frames, n1);
    if n1 < n2 {
        lemma_rounds_grow_monotonically(frames, n1, n2 - 1);
        lemma_split_state_len(frames, n2 - 1);
        let prev = spec_split_state(frames, n2 - 1).1;
        let m = spec_split_state(frames, n1).1.len() - 1;
        let cur = spec_split_state(frames, n2).1;
        assert(spec_split_state(frames, n1).1.last().is_prefix_of(cur[m])) by {
            let s1 = spec_split_state(frames, n1).1.last();
            let s2 = prev[m];
            assert(s1.is_prefix_of(s2));
            if cur[m] != s2 {
                assert(cur[m] =~= s2.push(frames[n2 - 1]));
                assert(s1 =~= s2.subrange(0, s1.len() as int));
                assert(s1 =~= cur[m].subrange(0, s1.len() as int));
            }
        }
    } else {
        assert(spec_split_state(frames, n1).1.last().is_prefix_of(
            spec_split_state(frames, n1).1.last(),
        ));
    }
}

} // verus!
