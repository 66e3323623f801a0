//! The integer rules of one simulation tick: per-axis movement decisions,
//! pursuer targeting and speed scaling, survival scoring and respawn placement.

use vstd::prelude::*;
use crate::input::{Intent, intent_of, has_bit, INPUT_UP, INPUT_DOWN};

verus! {

/// Number of evenly spaced respawn points on the arena's rim.
pub const RESPAWN_SLOTS: u32 = 100;

/// The pursuer's speed multiplier never exceeds this many thousandths.
pub const MAX_SPEED_MULTIPLIER_MILLI: u32 = 2000;

/// What happens to one horizontal velocity component in a tick.
#[derive(Clone, Copy, PartialEq, Eq, Structural, Debug)]
pub enum AxisAction {
    /// Accelerate toward the negative end of the axis.
    Decrease,
    /// Accelerate toward the positive end of the axis.
    Increase,
    /// No single direction held: the component decays by friction.
    Friction,
}

/// The action on an axis whose negative and positive directions are held as given.
pub open spec fn axis_spec(neg: bool, pos: bool) -> AxisAction {
    if neg && !pos {
        AxisAction::Decrease
    } else if pos && !neg {
        AxisAction::Increase
    } else {
        AxisAction::Friction
    }
}

/// Decides one axis: exactly one held direction accelerates, none or both decay.
pub fn axis_action(neg: bool, pos: bool) -> (r: AxisAction)
    ensures
        r == axis_spec(neg, pos),
{
    if neg && !pos {
        AxisAction::Decrease
    } else if pos && !neg {
        AxisAction::Increase
    } else {
        AxisAction::Friction
    }
}

/// The actions of a player's (x, z) velocity components: left/right act on x,
/// up/down on z (up is toward negative z).
pub fn player_axes(intent: Intent) -> (r: (AxisAction, AxisAction))
    ensures
        r.0 == axis_spec(intent.left, intent.right),
        r.1 == axis_spec(intent.up, intent.down),
{
    (axis_action(intent.left, intent.right), axis_action(intent.up, intent.down))
}

/// Holding up and down together moves the z axis exactly as holding neither:
/// friction only.
pub proof fn lemma_contradictory_input(inp: u8)
    requires
        has_bit(inp, INPUT_UP),
        has_bit(inp, INPUT_DOWN),
    ensures
        axis_spec(intent_of(inp).up, intent_of(inp).down) == axis_spec(
            intent_of(inp & 0xfc).up,
            intent_of(inp & 0xfc).down,
        ),
        axis_spec(intent_of(inp).up, intent_of(inp).down) == AxisAction::Friction,
{
    assert((inp & 0xfc) & 1 == 0 && (inp & 0xfc) & 2 == 0) by (bit_vector);
}

/// A player's survival bookkeeping.
#[derive(Clone, Copy, PartialEq, Eq, Structural, Debug)]
pub struct Score {
    pub highscore: u32,
    pub current: u32,
    pub last_death_frame: u32,
}

/// A fresh score: nothing survived yet.
pub fn new_score() -> (r: Score)
    ensures
        r == (Score { highscore: 0, current: 0, last_death_frame: 0 }),
{
    Score { highscore: 0, current: 0, last_death_frame: 0 }
}

/// The frame counter shared by all rules of a tick.
#[derive(Clone, Copy, PartialEq, Eq, Structural, Debug)]
pub struct FrameCount {
    pub frame: u32,
}

/// Advances the frame counter by one tick.
pub fn increase_frame_system(frame_count: &mut FrameCount)
    requires
        old(frame_count).frame < u32::MAX,
    ensures
        final(frame_count).frame == old(frame_count).frame + 1,
{
    frame_count.frame = frame_count.frame + 1;
}

/// The score after a tick at `frame`: a collision moves the last death to
/// `frame`, the current run is the frames since the last death, and the
/// highscore is the best run seen.
pub open spec fn score_after(s: Score, collided: bool, frame: u32) -> Score {
    let death = if collided { frame } else { s.last_death_frame };
    let current = (frame - death) as u32;
    Score {
        highscore: if current > s.highscore { current } else { s.highscore },
        current,
        last_death_frame: death,
    }
}

/// Scores one player for the tick at `frame`; `collided` says whether any
/// pursuer touched the player this tick.
pub fn update_score(s: Score, collided: bool, frame: u32) -> (r: Score)
    requires
        s.last_death_frame <= frame,
    ensures
        r == score_after(s, collided, frame),
        r.current == frame - r.last_death_frame,
        r.highscore >= s.highscore,
        r.highscore >= r.current,
{
    let death = if collided { frame } else { s.last_death_frame };
    let current = frame - death;
    let highscore = if current > s.highscore { current } else { s.highscore };
    Score { highscore, current, last_death_frame: death }
}

/// Scores every player for the tick at `frame`, after all collisions of the
/// tick are known: `collided[i]` belongs to `scores[i]`.
pub fn update_scores(scores: &Vec<Score>, collided: &Vec<bool>, frame: u32) -> (r: Vec<Score>)
    requires
        scores@.len() == collided@.len(),
        forall|i: int| 0 <= i < scores@.len() ==> #[trigger] scores@[i].last_death_frame <= frame,
    ensures
        r@.len() == scores@.len(),
        forall|i: int|
            0 <= i < r@.len() ==> #[trigger] r@[i] == score_after(scores@[i], collided@[i], frame),
{
    let mut out: Vec<Score> = Vec::new();
    let mut i: usize = 0;
    while i < scores.len()
        invariant
            i <= scores@.len(),
            scores@.len() == collided@.len(),
            out@.len() == i,
            forall|j: int| 0 <= j < scores@.len() ==> #[trigger] scores@[j].last_death_frame <= frame,
            forall|j: int|
                0 <= j < i ==> #[trigger] out@[j] == score_after(scores@[j], collided@[j], frame),
        decreases scores@.len() - i,
    {
        let s = update_score(scores[i], collided[i], frame);
        out.push(s);
        i = i + 1;
    }
    out
}

/// The score after a run of ticks, each a (collided, frame) pair.
pub open spec fn score_after_ticks(s: Score, ticks: Seq<(bool, u32)>) -> Score
    decreases ticks.len(),
{
    if ticks.len() == 0 {
        s
    } else {
        score_after_ticks(score_after(s, ticks[0].0, ticks[0].1), ticks.drop_first())
    }
}

/// A highscore never goes down, whatever ticks follow.
pub proof fn lemma_highscore_monotone(s: Score, ticks: Seq<(bool, u32)>)
    ensures
        score_after_ticks(s, ticks).highscore >= s.highscore,
    decreases ticks.len(),
{
    if ticks.len() > 0 {
        lemma_highscore_monotone(score_after(s, ticks[0].0, ticks[0].1), ticks.drop_first());
    }
}

/// Whether a player has to be placed anew: it died this tick, or has not
/// survived a frame yet.
pub fn needs_respawn(s: Score) -> (r: bool)
    ensures
        r == (s.current == 0),
{
    s.current == 0
}

/// The respawn point used at `frame`, as an index among the rim's evenly spaced
/// points; the point's angle is `slot / RESPAWN_SLOTS` of a full turn.
pub fn respawn_slot(frame: u32) -> (r: u32)
    ensures
        r == frame % RESPAWN_SLOTS,
        r < RESPAWN_SLOTS,
{
    frame % RESPAWN_SLOTS
}

/// The best highscore among the players, zero for none.
pub open spec fn top_score_spec(scores: Seq<Score>) -> u32
    decreases scores.len(),
{
    if scores.len() == 0 {
        0
    } else {
        let rest = top_score_spec(scores.drop_last());
        if scores.last().highscore > rest {
            scores.last().highscore
        } else {
            rest
        }
    }
}

/// Every highscore is at most the top score, and a nonempty list attains it.
pub proof fn lemma_top_score_is_max(scores: Seq<Score>)
    ensures
        forall|i: int| 0 <= i < scores.len() ==> #[trigger] scores[i].highscore <= top_score_spec(scores),
        scores.len() > 0 ==> exists|i: int|
            0 <= i < scores.len() && #[trigger] scores[i].highscore == top_score_spec(scores),
    decreases scores.len(),
{
    if scores.len() > 0 {
        lemma_top_score_is_max(scores.drop_last());
        let rest = scores.drop_last();
        assert forall|i: int| 0 <= i < scores.len() implies #[trigger] scores[i].highscore
            <= top_score_spec(scores) by {
            if i < scores.len() - 1 {
                assert(scores[i] == rest[i]);
            }
        }
        if scores.last().highscore > top_score_spec(rest) || rest.len() == 0 {
            assert(scores[scores.len() - 1].highscore == top_score_spec(scores));
        } else {
            let j = choose|j: int| 0 <= j < rest.len() && #[trigger] rest[j].highscore
                == top_score_spec(rest);
            assert(scores[j] == rest[j]);
        }
    }
}

/// The best highscore among the players, zero for none.
pub fn top_score(scores: &Vec<Score>) -> (r: u32)
    ensures
        r == top_score_spec(scores@),
{
    let mut top: u32 = 0;
    let mut i: usize = 0;
    while i < scores.len()
        invariant
            i <= scores@.len(),
            top == top_score_spec(scores@.subrange(0, i as int)),
        decreases scores@.len() - i,
    {
        assert(scores@.subrange(0, i as int + 1).drop_last() == scores@.subrange(0, i as int));
        if scores[i].highscore > top {
            top = scores[i].highscore;
        }
        i = i + 1;
    }
    assert(scores@.subrange(0, scores@.len() as int) == scores@);
    top
}

/// The pursuer's speed multiplier in thousandths: one thousandth per point of
/// the top score, at most twice the base speed.
pub fn speed_multiplier_milli(top: u32) -> (r: u32)
    ensures
        r == if top > MAX_SPEED_MULTIPLIER_MILLI { MAX_SPEED_MULTIPLIER_MILLI } else { top },
{
    if top > MAX_SPEED_MULTIPLIER_MILLI {
        MAX_SPEED_MULTIPLIER_MILLI
    } else {
        top
    }
}

/// Whether the player is setting a new personal best right now.
pub open spec fn is_beating(s: Score) -> bool {
    s.current > s.highscore
}

/// Chooses the index of the player the pursuer heads for: the last player in
/// order that is beating its own highscore, or else `nearest`, the player at
/// the least distance.
pub fn choose_target(scores: &Vec<Score>, nearest: usize) -> (r: usize)
    ensures
        (exists|i: int| 0 <= i < scores@.len() && is_beating(#[trigger] scores@[i])) ==> {
            &&& r < scores@.len()
            &&& is_beating(scores@[r as int])
            &&& forall|j: int| r < j < scores@.len() ==> !is_beating(#[trigger] scores@[j])
        },
        (forall|i: int| 0 <= i < scores@.len() ==> !is_beating(#[trigger] scores@[i])) ==> r
            == nearest,
{
    let mut target: usize = nearest;
    let mut found: bool = false;
    let mut i: usize = 0;
    while i < scores.len()
        invariant
            i <= scores@.len(),
            found ==> target < i && is_beating(scores@[target as int]) && forall|j: int|
                target < j < i ==> !is_beating(#[trigger] scores@[j]),
            !found ==> target == nearest && forall|j: int|
                0 <= j < i ==> !is_beating(#[trigger] scores@[j]),
        decreases scores@.len() - i,
    {
        if scores[i].current > scores[i].highscore {
            target = i;
            found = true;
        }
        i = i + 1;
    }
    target
}

} // verus!
