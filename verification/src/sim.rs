//! The owned simulation context and its mathematical model: one struct
//! holds the game state, the tick timer, the entities and the typed event
//! queues; one frame advances it through a fixed pipeline of steps, each
//! specified as a function on the abstract state.

use vstd::prelude::*;

use crate::game::{
    lemma_insert_score_sorted, spec_insert_score, spec_timer_tick, sorted_desc, EventGameOver,
    EventRestart, GameState, GameTimer, SCORE_HISTORY_CAP,
};
use crate::grid::{spec_can_step, spec_grid_max, GridPosition};
use crate::snake::{
    tail_positions, EventGrowTail, EventMoveTail, Fruit, PressedDirections, Snake, SnakeDirection,
    Tail,
};

verus! {

/// The whole simulation state, owned by the embedding program and passed
/// into each step. Entities are reset in place on game over and restart;
/// the typed event queues decouple collision detection from its side
/// effects and are drained once per frame in a fixed component order.
pub struct SimState {
    pub game: GameState,
    pub timer: GameTimer,
    pub snake: Option<Snake>,
    pub tail: Vec<Tail>,
    pub fruit: Option<Fruit>,
    pub move_tail_events: Vec<EventMoveTail>,
    pub grow_tail_events: Vec<EventGrowTail>,
    pub game_over_events: Vec<EventGameOver>,
    pub restart_events: Vec<EventRestart>,
}

/// The abstract simulation state: tail and queues as sequences, the fruit
/// as its cell.
#[verifier::ext_equal]
pub ghost struct SimView {
    pub score: u32,
    pub playing: bool,
    pub play_area: u32,
    pub cell_size: u32,
    pub prev_scores: Seq<u32>,
    pub timer: GameTimer,
    pub snake: Option<Snake>,
    pub tail: Seq<GridPosition>,
    pub fruit: Option<GridPosition>,
    pub moves: Seq<GridPosition>,
    pub grows: nat,
    pub overs: nat,
    pub restarts: nat,
}

impl View for SimState {
    type V = SimView;

    open spec fn view(&self) -> SimView {
        SimView {
            score: self.game.score,
            playing: self.game.playing,
            play_area: self.game.play_area,
            cell_size: self.game.cell_size,
            prev_scores: self.game.prev_scores@,
            timer: self.timer,
            snake: self.snake,
            tail: tail_positions(self.tail@),
            fruit: match self.fruit {
                Some(f) => Some(f.position),
                None => None,
            },
            moves: self.move_tail_events@.map_values(|e: EventMoveTail| e.position),
            grows: self.grow_tail_events@.len(),
            overs: self.game_over_events@.len(),
            restarts: self.restart_events@.len(),
        }
    }
}

/// The canonical starting actor: head just right of the vacated cell,
/// facing right, free to commit a direction on its first tick.
pub open spec fn spec_canonical_snake() -> Snake {
    Snake {
        position: GridPosition { x: 0, y: -6i32 },
        last_position: GridPosition { x: -1i32, y: -6i32 },
        direction: SnakeDirection::Right,
        movement_locked: false,
        next_move: SnakeDirection::Right,
    }
}

/// Builds the canonical starting actor.
pub fn canonical_snake() -> (sn: Snake)
    ensures
        sn == spec_canonical_snake(),
{
    Snake {
        position: GridPosition { x: 0, y: -6 },
        last_position: GridPosition { x: -1, y: -6 },
        direction: SnakeDirection::Right,
        movement_locked: false,
        next_move: SnakeDirection::Right,
    }
}

/// Restart step: pending restart requests take effect only while no game
/// is playing; they spawn the canonical actor and resume play. While
/// playing, pending requests expire unobserved.
pub open spec fn restart_spec(v: SimView) -> SimView {
    if !v.playing && v.restarts > 0 {
        SimView { playing: true, snake: Some(spec_canonical_snake()), restarts: 0, ..v }
    } else {
        SimView { restarts: 0, ..v }
    }
}

/// A position advanced one cell in the given direction (wrapping at the
/// representation's edge, which gameplay never reaches).
pub open spec fn spec_step_position(p: GridPosition, d: SnakeDirection) -> GridPosition {
    GridPosition { x: (p.x + d.spec_vec2().x) as i32, y: (p.y + d.spec_vec2().y) as i32 }
}

/// Input arbitration: each direction is examined in the fixed order Up,
/// Down, Left, Right; a pressed direction becomes the pending move unless
/// it is the exact opposite of the committed direction, and the last
/// acceptable one wins.
pub open spec fn arbitrated(
    committed: SnakeDirection,
    prev: SnakeDirection,
    input: PressedDirections,
) -> SnakeDirection {
    let a1 = if input.up && SnakeDirection::Up.spec_inverse() != committed {
        SnakeDirection::Up
    } else {
        prev
    };
    let a2 = if input.down && SnakeDirection::Down.spec_inverse() != committed {
        SnakeDirection::Down
    } else {
        a1
    };
    let a3 = if input.left && SnakeDirection::Left.spec_inverse() != committed {
        SnakeDirection::Left
    } else {
        a2
    };
    if input.right && SnakeDirection::Right.spec_inverse() != committed {
        SnakeDirection::Right
    } else {
        a3
    }
}

/// Movement step: the timer accumulates the frame's elapsed time; on the
/// frame a tick fires while playing, the head records the cell it vacates,
/// advances one cell in the committed direction, emits a tail-move event
/// carrying the vacated cell, and unlocks the per-tick direction commit.
/// Input arbitration then runs every frame, and the pending direction is
/// committed at most once per tick (guarded by the movement lock).
pub open spec fn movement_spec(v: SimView, input: PressedDirections, delta_ms: u64) -> SimView {
    let t = spec_timer_tick(v.timer, delta_ms);
    let v1 = SimView { timer: t, ..v };
    let v2 = match v1.snake {
        Some(sn) => if t.finished && v1.playing {
            SimView {
                snake: Some(
                    Snake {
                        position: spec_step_position(sn.position, sn.direction),
                        last_position: sn.position,
                        movement_locked: false,
                        ..sn
                    },
                ),
                moves: v1.moves.push(sn.position),
                ..v1
            }
        } else {
            v1
        },
        None => v1,
    };
    match v2.snake {
        Some(sn) => {
            let nm = arbitrated(sn.direction, sn.next_move, input);
            let sn2 = if !sn.movement_locked {
                Snake { direction: nm, next_move: nm, movement_locked: true, ..sn }
            } else {
                Snake { next_move: nm, ..sn }
            };
            SimView { snake: Some(sn2), ..v2 }
        },
        None => v2,
    }
}

/// Whether a head at `p` stands on the boundary wall: one of its
/// coordinates reaches the grid half-width in absolute value.
pub open spec fn hit_wall(p: GridPosition, play_area: u32, cell_size: u32) -> bool {
    ||| vstd::math::abs(p.x as int) == spec_grid_max(play_area, cell_size)
    ||| vstd::math::abs(p.y as int) == spec_grid_max(play_area, cell_size)
}

/// Whether the collision step, run on state `v`, consumes the fruit: a
/// tick elapsed while playing and the head's new position is the fruit's.
pub open spec fn collision_eats(v: SimView) -> bool {
    &&& v.timer.finished
    &&& v.playing
    &&& v.snake matches Some(sn) && (v.fruit matches Some(f) && f == sn.position)
}

/// Whether the collision step, run on state `v`, finds a fatal hit: a tick
/// elapsed while playing and the head stands on the wall or on a tail
/// segment.
pub open spec fn collision_hit(v: SimView) -> bool {
    &&& v.timer.finished
    &&& v.playing
    &&& v.snake matches Some(sn) && (hit_wall(sn.position, v.play_area, v.cell_size)
        || v.tail.contains(sn.position))
}

/// Collision step: on the tick's frame while playing, the head's new
/// position is tested against the wall, every tail segment, and the fruit.
/// Consuming the fruit increments the score, requests one tail growth and
/// removes the fruit; a wall or tail hit requests exactly one game over,
/// even if both trigger at once.
pub open spec fn collision_spec(v: SimView) -> SimView {
    SimView {
        score: if collision_eats(v) {
            (v.score + 1) as u32
        } else {
            v.score
        },
        fruit: if collision_eats(v) {
            None
        } else {
            v.fruit
        },
        grows: if collision_eats(v) {
            v.grows + 1
        } else {
            v.grows
        },
        overs: if collision_hit(v) {
            v.overs + 1
        } else {
            v.overs
        },
        ..v
    }
}

/// Growth step: each pending growth request appends one segment at the
/// cell the head vacated this tick; the subsequent shift moves it into
/// place. With no actor present the requests are dropped.
pub open spec fn grow_spec(v: SimView) -> SimView {
    match v.snake {
        Some(sn) => SimView {
            tail: v.tail + Seq::new(v.grows, |i: int| sn.last_position),
            grows: 0,
            ..v
        },
        None => SimView { grows: 0, ..v },
    }
}

/// One chain shift: the foremost segment takes the carried cell and every
/// other segment takes its head-ward neighbour's previous cell.
pub open spec fn shift_one(tail: Seq<GridPosition>, carried: GridPosition) -> Seq<GridPosition> {
    if tail.len() == 0 {
        tail
    } else {
        seq![carried] + tail.take(tail.len() - 1)
    }
}

/// All pending shifts applied in emission order.
pub open spec fn shift_all(tail: Seq<GridPosition>, moves: Seq<GridPosition>) -> Seq<GridPosition>
    decreases moves.len(),
{
    if moves.len() == 0 {
        tail
    } else {
        shift_one(shift_all(tail, moves.drop_last()), moves.last())
    }
}

/// Tail-propagation step: drains the tail-move queue, shifting the chain
/// once per event.
pub open spec fn shift_spec(v: SimView) -> SimView {
    SimView { tail: shift_all(v.tail, v.moves), moves: Seq::<GridPosition>::empty(), ..v }
}

/// Game-over step: a pending game-over notification ranks the final score
/// into the history, resets the score, stops play, despawns the actor,
/// the tail and the fruit, and requests a restart.
pub open spec fn game_over_spec(v: SimView) -> SimView {
    if v.overs > 0 {
        SimView {
            prev_scores: spec_insert_score(v.prev_scores, v.score),
            score: 0,
            playing: false,
            snake: None,
            tail: Seq::<GridPosition>::empty(),
            fruit: None,
            overs: 0,
            restarts: v.restarts + 1,
            ..v
        }
    } else {
        v
    }
}

/// The deterministic part of one frame: restart, movement, collision,
/// growth, tail shift, game over, in that order. Fruit spawning follows it
/// and is specified separately, since its placement is drawn at random.
pub open spec fn pipeline_spec(v: SimView, input: PressedDirections, delta_ms: u64) -> SimView {
    game_over_spec(
        shift_spec(grow_spec(collision_spec(movement_spec(restart_spec(v), input, delta_ms)))),
    )
}

/// Two abstract states that agree on everything but the fruit.
pub open spec fn eq_except_fruit(a: SimView, b: SimView) -> bool {
    a == SimView { fruit: a.fruit, ..b }
}

/// The states reachable at frame boundaries: the score history is ranked
/// and within capacity; the per-frame queues are drained; exactly one
/// actor exists while playing and none (nor tail, nor fruit) while not;
/// and no two occupied cells coincide — the head stands on no tail
/// segment, the tail segments are pairwise distinct, and the fruit
/// overlaps neither.
pub open spec fn inv(v: SimView) -> bool {
    &&& v.prev_scores.len() <= SCORE_HISTORY_CAP
    &&& sorted_desc(v.prev_scores)
    &&& v.moves.len() == 0
    &&& v.grows == 0
    &&& v.overs == 0
    &&& (v.playing ==> v.snake is Some)
    &&& (!v.playing ==> v.snake is None && v.tail.len() == 0 && v.fruit is None)
    &&& (v.playing ==> tail_distinct(v.tail))
    &&& (v.playing ==> !v.tail.contains(v.snake->Some_0.position))
    &&& (v.playing && v.fruit is Some ==> v.fruit->Some_0 != v.snake->Some_0.position
        && !v.tail.contains(v.fruit->Some_0))
}

/// No two tail segments occupy the same cell.
pub open spec fn tail_distinct(tail: Seq<GridPosition>) -> bool {
    forall|i: int, j: int| 0 <= i < j < tail.len() ==> tail[i] != tail[j]
}

/// The configuration constraints fixed at startup: cells have positive
/// size, the play area holds at least one cell, and the half-width fits
/// the coordinate representation.
pub open spec fn config_ok(v: SimView) -> bool {
    &&& v.cell_size >= 1
    &&& v.play_area >= v.cell_size
    &&& spec_grid_max(v.play_area, v.cell_size) <= i32::MAX
}

/// The startup state: a fresh timer, the canonical actor, no tail, no
/// fruit, a zeroed score and a history of three zero scores, play under
/// way.
pub open spec fn initial_view(play_area: u32, cell_size: u32, period_ms: u64) -> SimView {
    SimView {
        score: 0,
        playing: true,
        play_area,
        cell_size,
        prev_scores: seq![0u32, 0u32, 0u32],
        timer: GameTimer { elapsed_ms: 0, period_ms, finished: false },
        snake: Some(spec_canonical_snake()),
        tail: Seq::<GridPosition>::empty(),
        fruit: None,
        moves: Seq::<GridPosition>::empty(),
        grows: 0,
        overs: 0,
        restarts: 0,
    }
}

impl SimState {
    /// Builds the startup state.
    pub fn new(play_area: u32, cell_size: u32, period_ms: u64) -> (s: SimState)
        ensures
            s@ == initial_view(play_area, cell_size, period_ms),
            inv(s@),
    {
        let mut prev_scores: Vec<u32> = Vec::new();
        prev_scores.push(0);
        prev_scores.push(0);
        prev_scores.push(0);
        let s = SimState {
            game: GameState { score: 0, playing: true, play_area, cell_size, prev_scores },
            timer: GameTimer::new(period_ms),
            snake: Some(canonical_snake()),
            tail: Vec::new(),
            fruit: None,
            move_tail_events: Vec::new(),
            grow_tail_events: Vec::new(),
            game_over_events: Vec::new(),
            restart_events: Vec::new(),
        };
        proof {
            assert(s@ =~= initial_view(play_area, cell_size, period_ms));
        }
        s
    }
}

/// One frame of the simulation, advancing the state through the fixed
/// component order: restart, movement (with input arbitration), collision,
/// tail growth, tail shift, game over, fruit spawn. Everything but the
/// fruit follows the deterministic pipeline; the fruit, if one was placed,
/// landed inside the walls on a free cell.
pub fn frame(s: &mut SimState, keyboard_input: PressedDirections, delta_ms: u64)
    requires
        config_ok(old(s)@),
        old(s).timer.elapsed_ms + delta_ms <= u64::MAX,
        spec_timer_tick(old(s).timer, delta_ms).finished && old(s).game.playing ==> (old(
            s,
        ).snake matches Some(sn) ==> spec_can_step(sn.position)),
        collision_eats(movement_spec(restart_spec(old(s)@), keyboard_input, delta_ms)) ==> old(
            s,
        ).game.score < u32::MAX,
    ensures
        eq_except_fruit(final(s)@, pipeline_spec(old(s)@, keyboard_input, delta_ms)),
        pipeline_spec(old(s)@, keyboard_input, delta_ms).fruit is Some ==> final(s)@.fruit
            == pipeline_spec(old(s)@, keyboard_input, delta_ms).fruit,
        pipeline_spec(old(s)@, keyboard_input, delta_ms).fruit is None && !pipeline_spec(
            old(s)@,
            keyboard_input,
            delta_ms,
        ).playing ==> final(s)@.fruit is None,
        final(s)@.fruit is Some && pipeline_spec(old(s)@, keyboard_input, delta_ms).fruit is None
            ==> crate::fruit::spawn_in_bounds(
            final(s)@.fruit->Some_0,
            old(s)@.play_area,
            old(s)@.cell_size,
        ) && crate::fruit::cell_free(
            pipeline_spec(old(s)@, keyboard_input, delta_ms),
            final(s)@.fruit->Some_0,
        ),
        inv(old(s)@) ==> inv(final(s)@),
{
    crate::game::restart(s);
    crate::snake::snake_movement(s, keyboard_input, delta_ms);
    crate::snake::snake_collision(s);
    crate::snake::grow_tail_listener(s);
    crate::snake::move_tail_listener(s);
    crate::game::game_over(s);
    let ghost w = pipeline_spec(old(s)@, keyboard_input, delta_ms);
    proof {
        assert(s@ == w);
    }
    crate::fruit::fruit_spawner(s);
    proof {
        if inv(old(s)@) {
            lemma_pipeline_preserves_inv(old(s)@, keyboard_input, delta_ms);
            assert(inv(s@));
        }
    }
}

/// Advancing a steppable position always changes it.
proof fn lemma_step_changes(p: GridPosition, d: SnakeDirection)
    requires
        spec_can_step(p),
    ensures
        spec_step_position(p, d) != p,
{
}

/// The deterministic frame pipeline preserves the reachable-state
/// invariant: in particular, tail segments stay pairwise distinct and the
/// occupied cells stay disjoint at every frame boundary.
pub proof fn lemma_pipeline_preserves_inv(v: SimView, input: PressedDirections, delta_ms: u64)
    requires
        inv(v),
        spec_timer_tick(v.timer, delta_ms).finished && v.playing ==> (v.snake matches Some(sn)
            ==> spec_can_step(sn.position)),
    ensures
        inv(pipeline_spec(v, input, delta_ms)),
{
    let t = spec_timer_tick(v.timer, delta_ms);
    let v1 = restart_spec(v);
    let v2 = movement_spec(v1, input, delta_ms);
    let v3 = collision_spec(v2);
    let v4 = grow_spec(v3);
    let v5 = shift_spec(v4);
    let v6 = game_over_spec(v5);
    assert(inv(v1));
    if t.finished && v1.playing {
        let sn1 = v1.snake->Some_0;
        let p0 = sn1.position;
        let p1 = spec_step_position(p0, sn1.direction);
        assert(spec_can_step(p0));
        lemma_step_changes(p0, sn1.direction);
        assert(v2.snake matches Some(sn2) && sn2.position == p1 && sn2.last_position == p0);
        assert(v2.tail == v1.tail);
        assert(v2.moves =~= seq![p0]);
        let ate = collision_eats(v2);
        let hit = collision_hit(v2);
        let tail4 = v4.tail;
        assert(v4.moves == v2.moves);
        assert(v4.moves.drop_last() =~= Seq::<GridPosition>::empty());
        assert(shift_all(tail4, v4.moves.drop_last()) == tail4);
        assert(v4.moves.last() == p0);
        assert(v5.tail == shift_one(tail4, p0));
        if hit {
            lemma_insert_score_sorted(v5.prev_scores, v5.score);
            assert(inv(v6));
        } else {
            assert(v6 == v5);
            assert(forall|i: int| 0 <= i < v1.tail.len() ==> v1.tail[i] != p1);
            assert(forall|i: int| 0 <= i < v1.tail.len() ==> v1.tail[i] != p0);
            if ate {
                assert(tail4 =~= v1.tail.push(p0));
                assert(tail4.take(tail4.len() - 1) =~= v1.tail);
                let tail5 = v5.tail;
                assert(tail5 =~= seq![p0] + v1.tail);
                assert(tail_distinct(tail5)) by {
                    assert(forall|j: int| 1 <= j < tail5.len() ==> tail5[j] == v1.tail[j - 1]);
                }
                assert(!tail5.contains(p1)) by {
                    assert(forall|j: int| 0 <= j < tail5.len() ==> tail5[j] != p1);
                }
                assert(v6.fruit is None);
                assert(inv(v6));
            } else {
                assert(tail4 =~= v1.tail);
                let tail5 = v5.tail;
                if v1.tail.len() == 0 {
                    assert(tail5.len() == 0);
                    assert(inv(v6));
                } else {
                    assert(tail5 =~= seq![p0] + v1.tail.take(v1.tail.len() - 1));
                    assert(forall|j: int|
                        1 <= j < tail5.len() ==> tail5[j] == v1.tail[j - 1]);
                    assert(tail_distinct(tail5));
                    assert(!tail5.contains(p1)) by {
                        assert(forall|j: int| 0 <= j < tail5.len() ==> tail5[j] != p1);
                    }
                    if v6.fruit is Some {
                        let f = v6.fruit->Some_0;
                        assert(f == v1.fruit->Some_0);
                        assert(f != p1);
                        assert(f != p0);
                        assert(!tail5.contains(f)) by {
                            assert(forall|j: int| 0 <= j < tail5.len() ==> tail5[j] != f);
                        }
                    }
                    assert(inv(v6));
                }
            }
        }
    } else {
        assert(v3 == v2);
        assert(v4.tail =~= v2.tail);
        assert(v5.tail == v4.tail);
        assert(v6 == v5);
        assert(v6.tail == v1.tail);
        if v6.playing && v6.fruit is Some {
            assert(v6.fruit->Some_0 == v1.fruit->Some_0);
        }
        assert(inv(v6));
    }
}

/// Law: a restart request arriving while a game is playing is a no-op on
/// the game state — score, lifecycle flag, actor, tail, fruit and score
/// history are all unchanged; only the expired request leaves its queue.
pub proof fn lemma_restart_noop_while_playing(v: SimView)
    requires
        v.playing,
    ensures
        restart_spec(v) == (SimView { restarts: 0, ..v }),
        restart_spec(v).score == v.score,
        restart_spec(v).playing == v.playing,
        restart_spec(v).snake == v.snake,
        restart_spec(v).tail == v.tail,
        restart_spec(v).fruit == v.fruit,
        restart_spec(v).prev_scores == v.prev_scores,
{
}

/// Law: input arbitration never turns the pending direction into the
/// exact opposite of the committed direction. In particular, with
/// committed direction Right, pressing Left never makes Left pending,
/// while pressing Up (without Down or Right) always makes Up pending.
pub proof fn lemma_direction_arbitration(
    committed: SnakeDirection,
    prev: SnakeDirection,
    input: PressedDirections,
)
    ensures
        prev != committed.spec_inverse() ==> arbitrated(committed, prev, input)
            != committed.spec_inverse(),
        committed == SnakeDirection::Right && prev != SnakeDirection::Left ==> arbitrated(
            committed,
            prev,
            input,
        ) != SnakeDirection::Left,
        committed == SnakeDirection::Right && input.up && !input.down && !input.right
            ==> arbitrated(committed, prev, input) == SnakeDirection::Up,
{
}

/// Law: one chain shift, and so any sequence of them, never changes the
/// tail's length.
pub proof fn lemma_shift_keeps_length(tail: Seq<GridPosition>, moves: Seq<GridPosition>)
    ensures
        shift_all(tail, moves).len() == tail.len(),
    decreases moves.len(),
{
    if moves.len() == 0 {
    } else {
        lemma_shift_keeps_length(tail, moves.drop_last());
    }
}

/// Law: the growth step lengthens the tail by exactly one segment per
/// pending growth request, and by nothing else.
pub proof fn lemma_grow_adds_exactly(v: SimView)
    requires
        v.snake is Some,
    ensures
        grow_spec(v).tail.len() == v.tail.len() + v.grows,
{
}

/// Law: across one whole frame, the tail never shrinks while play
/// continues; it grows by exactly one segment on the tick that consumes
/// the fruit and keeps its length on every other frame.
pub proof fn lemma_tail_growth_per_frame(v: SimView, input: PressedDirections, delta_ms: u64)
    requires
        inv(v),
    ensures
        pipeline_spec(v, input, delta_ms).playing ==> pipeline_spec(v, input, delta_ms).tail.len()
            >= v.tail.len(),
        pipeline_spec(v, input, delta_ms).playing ==> pipeline_spec(v, input, delta_ms).tail.len()
            == v.tail.len() + (if collision_eats(
            movement_spec(restart_spec(v), input, delta_ms),
        ) {
            1int
        } else {
            0int
        }),
{
    let t = spec_timer_tick(v.timer, delta_ms);
    let v1 = restart_spec(v);
    let v2 = movement_spec(v1, input, delta_ms);
    let v3 = collision_spec(v2);
    let v4 = grow_spec(v3);
    let v5 = shift_spec(v4);
    let v6 = game_over_spec(v5);
    assert(v1.tail == v.tail);
    lemma_shift_keeps_length(v4.tail, v4.moves);
    if t.finished && v1.playing {
        assert(v4.tail.len() == v2.tail.len() + v3.grows);
    } else {
        assert(v4.tail =~= v2.tail);
    }
}

} // verus!
