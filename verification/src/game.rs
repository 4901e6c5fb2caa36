//! Game-wide state: score and score history, the play/over lifecycle flag,
//! the fixed-step tick timer, and the game-over / restart transitions of
//! the lifecycle state machine.

use vstd::prelude::*;

use crate::sim::{canonical_snake, game_over_spec, restart_spec, SimState};

verus! {

/// How many past scores the ranked history retains.
pub const SCORE_HISTORY_CAP: usize = 3;

/// The process-wide game state: current score, whether a game is in
/// progress, the configured play-area and cell sizes, and the ranked
/// history of recent scores (descending, at most `SCORE_HISTORY_CAP`
/// entries).
#[derive(PartialEq, Eq, Debug)]
pub struct GameState {
    pub score: u32,
    pub playing: bool,
    pub play_area: u32,
    pub cell_size: u32,
    pub prev_scores: Vec<u32>,
}

/// Fixed-interval accumulator producing discrete simulation ticks
/// independent of frame rate. `finished` is true exactly on the frames on
/// which a movement tick fired; the remainder above the period is retained.
#[derive(Clone, Copy, PartialEq, Eq, Structural, Debug)]
pub struct GameTimer {
    pub elapsed_ms: u64,
    pub period_ms: u64,
    pub finished: bool,
}

/// One frame's advance of the tick timer: accumulate the elapsed frame
/// time; if the period is reached, fire exactly one tick and keep the
/// remainder.
pub open spec fn spec_timer_tick(t: GameTimer, delta_ms: u64) -> GameTimer {
    if t.elapsed_ms + delta_ms >= t.period_ms {
        GameTimer {
            elapsed_ms: (t.elapsed_ms + delta_ms - t.period_ms) as u64,
            period_ms: t.period_ms,
            finished: true,
        }
    } else {
        GameTimer {
            elapsed_ms: (t.elapsed_ms + delta_ms) as u64,
            period_ms: t.period_ms,
            finished: false,
        }
    }
}

impl GameTimer {
    /// A fresh timer with the given period, not yet fired.
    pub fn new(period_ms: u64) -> (t: GameTimer)
        ensures
            t == (GameTimer { elapsed_ms: 0, period_ms, finished: false }),
    {
        GameTimer { elapsed_ms: 0, period_ms, finished: false }
    }

    /// Advances the accumulator by one frame's elapsed time.
    pub fn tick(&mut self, delta_ms: u64)
        requires
            old(self).elapsed_ms + delta_ms <= u64::MAX,
        ensures
            *final(self) == spec_timer_tick(*old(self), delta_ms),
    {
        self.elapsed_ms = self.elapsed_ms + delta_ms;
        if self.elapsed_ms >= self.period_ms {
            self.elapsed_ms = self.elapsed_ms - self.period_ms;
            self.finished = true;
        } else {
            self.finished = false;
        }
    }
}

/// Notification that the head hit a wall or its own tail this tick.
#[derive(Clone, Copy, PartialEq, Eq, Structural, Debug)]
pub struct EventGameOver;

/// Notification that a fresh snake should be spawned for a new game.
#[derive(Clone, Copy, PartialEq, Eq, Structural, Debug)]
pub struct EventRestart;

/// Notification that the displayed score history is stale.
#[derive(Clone, Copy, PartialEq, Eq, Structural, Debug)]
pub struct EventUpdateScores;

/// A score list ranked from best to worst.
pub open spec fn sorted_desc(s: Seq<u32>) -> bool {
    forall|i: int, j: int| 0 <= i < j < s.len() ==> s[i] >= s[j]
}

/// Insertion of a score into a descending ranked list, before the first
/// entry it equals or exceeds: among equal scores the more recently
/// achieved one takes the better slot.
pub open spec fn insert_rank(scores: Seq<u32>, s: u32) -> Seq<u32>
    decreases scores.len(),
{
    if scores.len() == 0 {
        seq![s]
    } else if s >= scores[0] {
        seq![s] + scores
    } else {
        seq![scores[0]] + insert_rank(scores.drop_first(), s)
    }
}

/// Ranked insertion followed by truncation to the history's capacity.
pub open spec fn spec_insert_score(scores: Seq<u32>, s: u32) -> Seq<u32> {
    if insert_rank(scores, s).len() > SCORE_HISTORY_CAP {
        insert_rank(scores, s).take(SCORE_HISTORY_CAP as int)
    } else {
        insert_rank(scores, s)
    }
}

/// `insert_rank` splits the list at the first entry that does not exceed
/// the new score.
proof fn lemma_insert_rank_split(scores: Seq<u32>, s: u32, i: int)
    requires
        0 <= i <= scores.len(),
        forall|j: int| 0 <= j < i ==> scores[j] > s,
        i < scores.len() ==> scores[i] <= s,
    ensures
        insert_rank(scores, s) == scores.take(i) + seq![s] + scores.skip(i),
    decreases i,
{
    if i == 0 {
        if scores.len() == 0 {
            assert(insert_rank(scores, s) =~= scores.take(0) + seq![s] + scores.skip(0));
        } else {
            assert(s >= scores[0]);
            assert(insert_rank(scores, s) =~= scores.take(0) + seq![s] + scores.skip(0));
        }
    } else {
        assert(scores[0] > s);
        let rest = scores.drop_first();
        lemma_insert_rank_split(rest, s, i - 1);
        assert(insert_rank(scores, s) =~= scores.take(i) + seq![s] + scores.skip(i));
    }
}

/// The slot a new score takes in a ranked list: the index of the first
/// entry that does not exceed it.
pub open spec fn rank_index(scores: Seq<u32>, s: u32) -> int
    decreases scores.len(),
{
    if scores.len() == 0 {
        0
    } else if s >= scores[0] {
        0
    } else {
        1 + rank_index(scores.drop_first(), s)
    }
}

/// Every entry before the slot exceeds the new score; the entry at the
/// slot, if any, does not.
proof fn lemma_rank_index_props(scores: Seq<u32>, s: u32)
    ensures
        0 <= rank_index(scores, s) <= scores.len(),
        forall|j: int| 0 <= j < rank_index(scores, s) ==> scores[j] > s,
        rank_index(scores, s) < scores.len() ==> scores[rank_index(scores, s)] <= s,
    decreases scores.len(),
{
    if scores.len() == 0 {
    } else if s >= scores[0] {
    } else {
        lemma_rank_index_props(scores.drop_first(), s);
        assert forall|j: int| 0 <= j < rank_index(scores, s) implies scores[j] > s by {
            if j > 0 {
                assert(scores.drop_first()[j - 1] > s);
            }
        }
    }
}

/// Ranked insertion keeps the list sorted and grows it by one entry.
proof fn lemma_insert_rank_sorted(scores: Seq<u32>, s: u32)
    requires
        sorted_desc(scores),
    ensures
        sorted_desc(insert_rank(scores, s)),
        insert_rank(scores, s).len() == scores.len() + 1,
{
    let i = rank_index(scores, s);
    lemma_rank_index_props(scores, s);
    lemma_insert_rank_split(scores, s, i);
    let r = insert_rank(scores, s);
    assert(r.len() == scores.len() + 1);
    assert forall|a: int, b: int| 0 <= a < b < r.len() implies r[a] >= r[b] by {
        if a < i {
            assert(r[a] == scores[a]);
        } else if a == i {
            assert(r[a] == s);
        } else {
            assert(r[a] == scores[a - 1]);
        }
        if b < i {
            assert(r[b] == scores[b]);
        } else if b == i {
            assert(r[b] == s);
        } else {
            assert(r[b] == scores[b - 1]);
        }
    }
}

/// The capped insertion keeps the history sorted and within capacity.
pub proof fn lemma_insert_score_sorted(scores: Seq<u32>, s: u32)
    requires
        sorted_desc(scores),
    ensures
        sorted_desc(spec_insert_score(scores, s)),
        spec_insert_score(scores, s).len() <= SCORE_HISTORY_CAP || spec_insert_score(scores, s).len()
            <= scores.len(),
        scores.len() <= SCORE_HISTORY_CAP ==> spec_insert_score(scores, s).len()
            <= SCORE_HISTORY_CAP,
{
    lemma_insert_rank_sorted(scores, s);
    let full = insert_rank(scores, s);
    if full.len() > SCORE_HISTORY_CAP {
        assert forall|i: int, j: int|
            0 <= i < j < full.take(SCORE_HISTORY_CAP as int).len() implies full.take(
            SCORE_HISTORY_CAP as int,
        )[i] >= full.take(SCORE_HISTORY_CAP as int)[j] by {
            assert(full[i] >= full[j]);
        }
    }
}

/// Inserts a just-ended game's score into the ranked history, evicting the
/// lowest entries beyond the capacity.
pub fn insert_score(scores: &Vec<u32>, s: u32) -> (r: Vec<u32>)
    ensures
        r@ == spec_insert_score(scores@, s),
{
    let mut r: Vec<u32> = Vec::new();
    let mut i: usize = 0;
    while i < scores.len() && scores[i] > s
        invariant
            i <= scores@.len(),
            forall|j: int| 0 <= j < i ==> scores@[j] > s,
            r@ == scores@.take(i as int),
        decreases scores@.len() - i,
    {
        let v = scores[i];
        r.push(v);
        proof {
            assert(r@ =~= scores@.take(i + 1));
        }
        i += 1;
    }
    r.push(s);
    let split: usize = i;
    proof {
        assert(r@ =~= scores@.take(split as int) + seq![s]);
    }
    while i < scores.len()
        invariant
            split <= i <= scores@.len(),
            r@ == scores@.take(split as int) + seq![s] + scores@.subrange(split as int, i as int),
        decreases scores@.len() - i,
    {
        let v = scores[i];
        r.push(v);
        proof {
            assert(r@ =~= scores@.take(split as int) + seq![s] + scores@.subrange(
                split as int,
                i + 1,
            ));
        }
        i += 1;
    }
    proof {
        assert(scores@.subrange(split as int, scores@.len() as int) == scores@.skip(split as int));
        lemma_insert_rank_split(scores@, s, split as int);
    }
    r.truncate(SCORE_HISTORY_CAP);
    proof {
        if insert_rank(scores@, s).len() > SCORE_HISTORY_CAP {
            assert(r@ =~= spec_insert_score(scores@, s));
        }
    }
    r
}

/// Game-over system: a pending game-over notification ranks the final
/// score into the history, resets the score, stops play, despawns the
/// actor, the tail and the fruit, and requests a restart.
pub fn game_over(s: &mut SimState)
    ensures
        final(s)@ == game_over_spec(old(s)@),
{
    if s.game_over_events.len() > 0 {
        s.game_over_events.clear();
        let ranked = insert_score(&s.game.prev_scores, s.game.score);
        s.game.prev_scores = ranked;
        s.game.score = 0;
        s.game.playing = false;
        s.snake = None;
        s.tail.clear();
        s.fruit = None;
        s.restart_events.push(EventRestart);
    }
    proof {
        assert(s@ =~= game_over_spec(old(s)@));
    }
}

/// Restart system: a pending restart request, honoured only while no game
/// is playing, spawns the canonical actor and resumes play. A request
/// arriving while a game is playing expires with no effect on the game.
pub fn restart(s: &mut SimState)
    ensures
        final(s)@ == restart_spec(old(s)@),
{
    if !s.game.playing {
        if s.restart_events.len() > 0 {
            s.restart_events.clear();
            s.snake = Some(canonical_snake());
            s.game.playing = true;
        }
    } else {
        s.restart_events.clear();
    }
    proof {
        assert(s@ =~= restart_spec(old(s)@));
    }
}

} // verus!
