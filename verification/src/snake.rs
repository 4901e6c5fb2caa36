//! The snake itself: its facing direction with the derived unit-vector
//! geometry, the head actor, tail segments, the fruit, the events that
//! carry tail updates, and the movement / collision / tail-propagation
//! steps of the simulation.

use vstd::prelude::*;

use crate::game::EventGameOver;
use crate::grid::{grid_max, spec_can_step, GridPosition};
use crate::sim::{
    collision_eats, collision_spec, grow_spec, movement_spec, shift_all, shift_one, shift_spec,
    SimState,
};
use vstd::pervasive::VecAdditionalExecFns;

verus! {

/// One of the four facing directions of the snake's head.
#[derive(Clone, Copy, PartialEq, Eq, Structural, Debug)]
pub enum SnakeDirection {
    Up,
    Down,
    Left,
    Right,
}

impl SnakeDirection {
    /// The unit grid displacement of this direction: y grows upward,
    /// x grows to the right.
    pub open spec fn spec_vec2(self) -> GridPosition {
        match self {
            SnakeDirection::Up => GridPosition { x: 0, y: 1 },
            SnakeDirection::Left => GridPosition { x: -1i32, y: 0 },
            SnakeDirection::Right => GridPosition { x: 1, y: 0 },
            SnakeDirection::Down => GridPosition { x: 0, y: -1i32 },
        }
    }

    /// The direction's unit vector, as a grid displacement.
    pub fn into_vec2(self) -> (v: GridPosition)
        ensures
            v == self.spec_vec2(),
    {
        match self {
            SnakeDirection::Up => GridPosition { x: 0, y: 1 },
            SnakeDirection::Left => GridPosition { x: -1, y: 0 },
            SnakeDirection::Right => GridPosition { x: 1, y: 0 },
            SnakeDirection::Down => GridPosition { x: 0, y: -1 },
        }
    }

    /// The 180-degree opposite of a direction.
    pub open spec fn spec_inverse(self) -> SnakeDirection {
        match self {
            SnakeDirection::Up => SnakeDirection::Down,
            SnakeDirection::Left => SnakeDirection::Right,
            SnakeDirection::Right => SnakeDirection::Left,
            SnakeDirection::Down => SnakeDirection::Up,
        }
    }

    /// Returns the opposite direction: Up and Down swap, Left and Right swap.
    pub fn inverse(self) -> (r: SnakeDirection)
        ensures
            r == self.spec_inverse(),
    {
        match self {
            SnakeDirection::Up => SnakeDirection::Down,
            SnakeDirection::Left => SnakeDirection::Right,
            SnakeDirection::Right => SnakeDirection::Left,
            SnakeDirection::Down => SnakeDirection::Up,
        }
    }

    /// Whether `other` is the exact opposite of this direction.
    pub fn is_inverse(self, other: SnakeDirection) -> (r: bool)
        ensures
            r == (self.spec_inverse() == other),
    {
        self.inverse() == other
    }

    /// All four directions, in the fixed order used by input arbitration:
    /// Up, Down, Left, Right. When several pressed directions are
    /// acceptable, the last one in this order wins.
    pub fn enumerate() -> (r: Vec<SnakeDirection>)
        ensures
            r@.len() == 4,
            r@[0] == SnakeDirection::Up,
            r@[1] == SnakeDirection::Down,
            r@[2] == SnakeDirection::Left,
            r@[3] == SnakeDirection::Right,
    {
        let mut v: Vec<SnakeDirection> = Vec::new();
        v.push(SnakeDirection::Up);
        v.push(SnakeDirection::Down);
        v.push(SnakeDirection::Left);
        v.push(SnakeDirection::Right);
        v
    }
}

/// The single food item. At most one exists at a time while playing.
#[derive(Clone, Copy, PartialEq, Eq, Structural, Debug)]
pub struct Fruit {
    pub position: GridPosition,
}

/// The snake's head actor. `last_position` is the cell vacated on the most
/// recent movement tick: the anchor for tail growth and tail shifting.
/// `next_move` is the pending direction chosen by input arbitration;
/// `movement_locked` guarantees at most one committed-direction change
/// takes effect per tick even though input is sampled every frame.
#[derive(Clone, Copy, PartialEq, Eq, Structural, Debug)]
pub struct Snake {
    pub position: GridPosition,
    pub last_position: GridPosition,
    pub direction: SnakeDirection,
    pub movement_locked: bool,
    pub next_move: SnakeDirection,
}

/// One trailing body segment of the tail chain.
#[derive(Clone, Copy, PartialEq, Eq, Structural, Debug)]
pub struct Tail {
    pub position: GridPosition,
}

/// Notification that the tail must grow by one segment (a fruit was eaten).
#[derive(Clone, Copy, PartialEq, Eq, Structural, Debug)]
pub struct EventGrowTail;

/// Notification that the head moved; carries the cell it vacated, which the
/// foremost tail segment takes over.
#[derive(Clone, Copy, PartialEq, Eq, Structural, Debug)]
pub struct EventMoveTail {
    pub position: GridPosition,
}

/// Classification of an entity's role in collision testing.
#[derive(Clone, Copy, PartialEq, Eq, Structural, Debug)]
pub enum Collider {
    Solid,
    Snake,
    Fruit,
    Tail,
}

/// The set of logical directions currently pressed, sampled once per frame
/// by the embedding program. The core never sees raw key codes.
#[derive(Clone, Copy, PartialEq, Eq, Structural, Debug)]
pub struct PressedDirections {
    pub up: bool,
    pub down: bool,
    pub left: bool,
    pub right: bool,
}

impl PressedDirections {
    /// Whether the given logical direction is currently pressed.
    pub open spec fn spec_pressed(self, d: SnakeDirection) -> bool {
        match d {
            SnakeDirection::Up => self.up,
            SnakeDirection::Down => self.down,
            SnakeDirection::Left => self.left,
            SnakeDirection::Right => self.right,
        }
    }

    /// Queries one logical direction.
    pub fn pressed(self, d: SnakeDirection) -> (r: bool)
        ensures
            r == self.spec_pressed(d),
    {
        match d {
            SnakeDirection::Up => self.up,
            SnakeDirection::Down => self.down,
            SnakeDirection::Left => self.left,
            SnakeDirection::Right => self.right,
        }
    }
}

/// The positions of a chain of tail segments, head-proximal first.
pub open spec fn tail_positions(tail: Seq<Tail>) -> Seq<GridPosition> {
    tail.map_values(|t: Tail| t.position)
}

/// Appending a segment appends its position.
pub proof fn lemma_tail_positions_push(tail: Seq<Tail>, t: Tail)
    ensures
        tail_positions(tail.push(t)) == tail_positions(tail).push(t.position),
{
    assert(tail_positions(tail.push(t)) =~= tail_positions(tail).push(t.position));
}

/// Whether any segment of the chain occupies position `p`.
pub fn tail_contains(tail: &Vec<Tail>, p: GridPosition) -> (b: bool)
    ensures
        b == tail_positions(tail@).contains(p),
{
    let mut i: usize = 0;
    while i < tail.len()
        invariant
            i <= tail@.len(),
            forall|j: int| 0 <= j < i ==> tail@[j].position != p,
        decreases tail@.len() - i,
    {
        if tail[i].position == p {
            proof {
                assert(tail_positions(tail@)[i as int] == p);
            }
            return true;
        }
        i += 1;
    }
    proof {
        assert forall|k: int| 0 <= k < tail_positions(tail@).len() implies tail_positions(
            tail@,
        )[k] != p by {
            assert(tail_positions(tail@)[k] == tail@[k].position);
        }
    }
    false
}

/// Movement system, run once per frame: advances the tick timer by the
/// frame's elapsed time; on a tick while playing, moves the head one cell
/// in its committed direction, records the vacated cell, emits the
/// tail-move event and unlocks the direction commit. Input arbitration
/// then runs every frame, committing at most one direction change per
/// tick.
pub fn snake_movement(s: &mut SimState, keyboard_input: PressedDirections, delta_ms: u64)
    requires
        old(s).timer.elapsed_ms + delta_ms <= u64::MAX,
        crate::game::spec_timer_tick(old(s).timer, delta_ms).finished && old(s).game.playing ==> (
        old(s).snake matches Some(sn) ==> spec_can_step(sn.position)),
    ensures
        final(s)@ == movement_spec(old(s)@, keyboard_input, delta_ms),
{
    s.timer.tick(delta_ms);
    if s.timer.finished && s.game.playing {
        match &mut s.snake {
            Some(sn) => {
                sn.last_position = sn.position;
                let unit = sn.direction.into_vec2();
                sn.position = sn.position.plus(unit);
                sn.movement_locked = false;
                let vacated = sn.last_position;
                s.move_tail_events.push(EventMoveTail { position: vacated });
            },
            None => {},
        }
    }
    match &mut s.snake {
        Some(sn) => {
            let committed = sn.direction;
            if keyboard_input.up && !SnakeDirection::Up.is_inverse(committed) {
                sn.next_move = SnakeDirection::Up;
            }
            if keyboard_input.down && !SnakeDirection::Down.is_inverse(committed) {
                sn.next_move = SnakeDirection::Down;
            }
            if keyboard_input.left && !SnakeDirection::Left.is_inverse(committed) {
                sn.next_move = SnakeDirection::Left;
            }
            if keyboard_input.right && !SnakeDirection::Right.is_inverse(committed) {
                sn.next_move = SnakeDirection::Right;
            }
            if !sn.movement_locked {
                sn.direction = sn.next_move;
                sn.movement_locked = true;
            }
        },
        None => {},
    }
    proof {
        assert(s@.moves =~= movement_spec(old(s)@, keyboard_input, delta_ms).moves);
        assert(s@ =~= movement_spec(old(s)@, keyboard_input, delta_ms));
    }
}

/// Collision system, run once per elapsed movement tick while playing:
/// tests the head's new position against the boundary wall, every tail
/// segment and the fruit. A fruit hit increments the score, requests one
/// tail growth and removes the fruit; a wall or self hit requests exactly
/// one game over, even when both trigger at once.
pub fn snake_collision(s: &mut SimState)
    requires
        old(s).timer.finished && old(s).game.playing ==> old(s).game.cell_size >= 1,
        collision_eats(old(s)@) ==> old(s).game.score < u32::MAX,
    ensures
        final(s)@ == collision_spec(old(s)@),
{
    if s.timer.finished && s.game.playing {
        let head_opt: Option<GridPosition> = match &s.snake {
            Some(sn) => Some(sn.position),
            None => None,
        };
        match head_opt {
            Some(head) => {
                let mut hit = false;
                let gm = grid_max(s.game.play_area, s.game.cell_size);
                let ax: i64 = if head.x >= 0 {
                    head.x as i64
                } else {
                    -(head.x as i64)
                };
                let ay: i64 = if head.y >= 0 {
                    head.y as i64
                } else {
                    -(head.y as i64)
                };
                if ax as u64 == gm || ay as u64 == gm {
                    hit = true;
                }
                if tail_contains(&s.tail, head) {
                    hit = true;
                }
                let fruit_pos: Option<GridPosition> = match &s.fruit {
                    Some(fr) => Some(fr.position),
                    None => None,
                };
                match fruit_pos {
                    Some(fp) => {
                        if fp == head {
                            s.game.score = s.game.score + 1;
                            s.grow_tail_events.push(EventGrowTail);
                            s.fruit = None;
                        }
                    },
                    None => {},
                }
                if hit {
                    s.game_over_events.push(EventGameOver);
                }
            },
            None => {},
        }
    }
    proof {
        assert(s@ =~= collision_spec(old(s)@));
    }
}

/// Shifts the chain once: the foremost segment takes the carried cell and
/// every other segment takes its head-ward neighbour's previous cell.
fn shift_chain(tail: &mut Vec<Tail>, carried: GridPosition)
    ensures
        tail_positions(final(tail)@) == shift_one(tail_positions(old(tail)@), carried),
{
    let ghost t0 = tail@;
    let mut last_pos = carried;
    let mut i: usize = 0;
    while i < tail.len()
        invariant
            i <= tail@.len(),
            tail@.len() == t0.len(),
            forall|j: int| i <= j < t0.len() ==> tail@[j] == t0[j],
            forall|j: int|
                0 <= j < i ==> tail@[j].position == (if j == 0 {
                    carried
                } else {
                    t0[j - 1].position
                }),
            last_pos == (if i == 0 {
                carried
            } else {
                t0[i - 1].position
            }),
        decreases t0.len() - i,
    {
        let next_pos = tail[i].position;
        tail.set(i, Tail { position: last_pos });
        last_pos = next_pos;
        i += 1;
    }
    proof {
        assert(tail_positions(tail@) =~= shift_one(tail_positions(t0), carried));
    }
}

/// Tail-propagation system: drains the pending tail-move events in
/// emission order, shifting the whole chain once per event.
pub fn move_tail_listener(s: &mut SimState)
    ensures
        final(s)@ == shift_spec(old(s)@),
{
    let ghost moves0 = s@.moves;
    let mut k: usize = 0;
    while k < s.move_tail_events.len()
        invariant
            k <= s.move_tail_events@.len(),
            s.move_tail_events@ == old(s).move_tail_events@,
            s.game == old(s).game,
            s.timer == old(s).timer,
            s.snake == old(s).snake,
            s.fruit == old(s).fruit,
            s.grow_tail_events@ == old(s).grow_tail_events@,
            s.game_over_events@ == old(s).game_over_events@,
            s.restart_events@ == old(s).restart_events@,
            moves0 == old(s)@.moves,
            tail_positions(s.tail@) == shift_all(
                tail_positions(old(s).tail@),
                moves0.take(k as int),
            ),
        decreases s.move_tail_events@.len() - k,
    {
        let carried = s.move_tail_events[k].position;
        shift_chain(&mut s.tail, carried);
        proof {
            assert(moves0.take(k + 1).drop_last() =~= moves0.take(k as int));
            assert(moves0.take(k + 1).last() == carried);
        }
        k += 1;
    }
    s.move_tail_events.clear();
    proof {
        assert(moves0.take(moves0.len() as int) =~= moves0);
        assert(s@ =~= shift_spec(old(s)@));
    }
}

/// Growth system: drains the pending growth requests; each appends one
/// segment at the cell the head vacated on the most recent tick, so growth
/// stays contiguous with the chain. With no actor present the requests are
/// dropped.
pub fn grow_tail_listener(s: &mut SimState)
    ensures
        final(s)@ == grow_spec(old(s)@),
{
    let n = s.grow_tail_events.len();
    s.grow_tail_events.clear();
    let last_opt: Option<GridPosition> = match &s.snake {
        Some(sn) => Some(sn.last_position),
        None => None,
    };
    match last_opt {
        Some(lp) => {
            let mut i: usize = 0;
            while i < n
                invariant
                    i <= n,
                    s.game == old(s).game,
                    s.timer == old(s).timer,
                    s.snake == old(s).snake,
                    s.fruit == old(s).fruit,
                    s.move_tail_events@ == old(s).move_tail_events@,
                    s.grow_tail_events@.len() == 0,
                    s.game_over_events@ == old(s).game_over_events@,
                    s.restart_events@ == old(s).restart_events@,
                    old(s).snake matches Some(sn) && lp == sn.last_position,
                    tail_positions(s.tail@) == tail_positions(old(s).tail@) + Seq::new(
                        i as nat,
                        |j: int| lp,
                    ),
                decreases n - i,
            {
                let ghost before = s.tail@;
                s.tail.push(Tail { position: lp });
                proof {
                    lemma_tail_positions_push(before, Tail { position: lp });
                    assert(tail_positions(s.tail@) =~= tail_positions(old(s).tail@) + Seq::new(
                        (i + 1) as nat,
                        |j: int| lp,
                    ));
                }
                i += 1;
            }
            proof {
                assert(Seq::new(n as nat, |j: int| lp) == grow_spec(old(s)@).tail.skip(
                    old(s).tail@.len() as int,
                ));
                assert(s@ =~= grow_spec(old(s)@));
            }
        },
        None => {
            proof {
                assert(s@ =~= grow_spec(old(s)@));
            }
        },
    }
}

} // verus!
