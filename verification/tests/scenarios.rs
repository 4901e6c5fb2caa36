use snake_game::game::{restart, EventRestart};
use snake_game::grid::GridPosition;
use snake_game::sim::{frame, SimState};
use snake_game::snake::{
    grow_tail_listener, move_tail_listener, snake_movement, EventGrowTail, EventMoveTail, Fruit,
    PressedDirections, Snake, SnakeDirection, Tail,
};

fn no_input() -> PressedDirections {
    PressedDirections { up: false, down: false, left: false, right: false }
}

fn only(d: SnakeDirection) -> PressedDirections {
    PressedDirections {
        up: d == SnakeDirection::Up,
        down: d == SnakeDirection::Down,
        left: d == SnakeDirection::Left,
        right: d == SnakeDirection::Right,
    }
}

/// Scenario A: one tick with no input moves the head one cell right,
/// records the vacated cell and emits exactly one tail-move event.
#[test]
fn tick_moves_head_and_emits_one_move_event() {
    let mut s = SimState::new(550, 25, 250);
    snake_movement(&mut s, no_input(), 250);
    let sn = s.snake.unwrap();
    assert_eq!(sn.position, GridPosition { x: 1, y: -6 });
    assert_eq!(sn.last_position, GridPosition { x: 0, y: -6 });
    assert_eq!(s.move_tail_events.len(), 1);
    assert_eq!(s.move_tail_events[0].position, GridPosition { x: 0, y: -6 });
}

/// Scenario B: moving onto the fruit increments the score from 0 to 1,
/// grows the tail by one segment, removes the fruit, and the next spawn
/// check places a fresh fruit on a distinct cell.
#[test]
fn eating_fruit_scores_grows_and_respawns() {
    let mut s = SimState::new(550, 25, 250);
    s.fruit = Some(Fruit { position: GridPosition { x: 1, y: -6 } });
    frame(&mut s, no_input(), 250);
    assert_eq!(s.game.score, 1);
    let sn = s.snake.unwrap();
    assert_eq!(sn.position, GridPosition { x: 1, y: -6 });
    assert_eq!(s.tail.len(), 1);
    assert_eq!(s.tail[0].position, GridPosition { x: 0, y: -6 });
    let fruit = s.fruit.expect("a fresh fruit is placed on the next spawn check");
    assert_ne!(fruit.position, sn.position);
    assert_ne!(fruit.position, s.tail[0].position);
}

/// Scenario C: reaching the grid half-width fires game over exactly once:
/// play stops, the score is ranked into the history and the entities are
/// despawned.
#[test]
fn wall_hit_ends_game_and_ranks_score() {
    let mut s = SimState::new(550, 25, 250);
    s.snake = Some(Snake {
        position: GridPosition { x: 10, y: -6 },
        last_position: GridPosition { x: 9, y: -6 },
        direction: SnakeDirection::Right,
        movement_locked: false,
        next_move: SnakeDirection::Right,
    });
    s.game.score = 4;
    frame(&mut s, no_input(), 250);
    assert!(!s.game.playing);
    assert_eq!(s.game.score, 0);
    assert_eq!(s.game.prev_scores, vec![4, 0, 0]);
    assert!(s.snake.is_none());
    assert!(s.tail.is_empty());
    assert!(s.fruit.is_none());
    assert_eq!(s.restart_events.len(), 1);
    assert!(s.game_over_events.is_empty());
}

/// Scenario D: the restart queued by a game over spawns a fresh actor at
/// the canonical start with direction Right and resumes play at score 0.
#[test]
fn restart_after_game_over_spawns_canonical_actor() {
    let mut s = SimState::new(550, 25, 250);
    s.snake = Some(Snake {
        position: GridPosition { x: 10, y: -6 },
        last_position: GridPosition { x: 9, y: -6 },
        direction: SnakeDirection::Right,
        movement_locked: false,
        next_move: SnakeDirection::Right,
    });
    s.game.score = 4;
    frame(&mut s, no_input(), 250);
    assert!(!s.game.playing);
    frame(&mut s, no_input(), 0);
    assert!(s.game.playing);
    assert_eq!(s.game.score, 0);
    let sn = s.snake.expect("a fresh actor is spawned");
    assert_eq!(sn.position, GridPosition { x: 0, y: -6 });
    assert_eq!(sn.direction, SnakeDirection::Right);
    assert!(s.tail.is_empty());
}

/// The tail never shrinks and grows by exactly one segment per growth
/// event; a chain shift keeps the length.
#[test]
fn tail_grows_one_segment_per_event_and_shift_keeps_length() {
    let mut s = SimState::new(550, 25, 250);
    assert_eq!(s.tail.len(), 0);
    s.grow_tail_events.push(EventGrowTail);
    grow_tail_listener(&mut s);
    assert_eq!(s.tail.len(), 1);
    assert_eq!(s.tail[0].position, GridPosition { x: -1, y: -6 });
    s.move_tail_events.push(EventMoveTail { position: GridPosition { x: 5, y: 5 } });
    move_tail_listener(&mut s);
    assert_eq!(s.tail.len(), 1);
    assert_eq!(s.tail[0].position, GridPosition { x: 5, y: 5 });
}

/// No two tail segments ever share a cell, even across growth.
#[test]
fn tail_segments_stay_distinct_across_two_meals() {
    let mut s = SimState::new(550, 25, 250);
    s.fruit = Some(Fruit { position: GridPosition { x: 1, y: -6 } });
    frame(&mut s, no_input(), 250);
    s.fruit = Some(Fruit { position: GridPosition { x: 2, y: -6 } });
    frame(&mut s, no_input(), 250);
    assert_eq!(s.game.score, 2);
    assert_eq!(s.tail.len(), 2);
    assert_eq!(s.tail[0].position, GridPosition { x: 1, y: -6 });
    assert_eq!(s.tail[1].position, GridPosition { x: 0, y: -6 });
    assert_ne!(s.tail[0].position, s.tail[1].position);
    let head = s.snake.unwrap().position;
    assert_ne!(head, s.tail[0].position);
    assert_ne!(head, s.tail[1].position);
}

/// Pressing the opposite of the committed direction never changes the
/// pending direction; pressing a perpendicular one does, and the commit
/// happens at most once per tick.
#[test]
fn arbitration_rejects_reversal_and_accepts_turn() {
    let mut s = SimState::new(550, 25, 250);
    snake_movement(&mut s, only(SnakeDirection::Left), 0);
    let sn = s.snake.unwrap();
    assert_eq!(sn.next_move, SnakeDirection::Right);
    assert_eq!(sn.direction, SnakeDirection::Right);
    snake_movement(&mut s, only(SnakeDirection::Up), 0);
    let sn = s.snake.unwrap();
    assert_eq!(sn.next_move, SnakeDirection::Up);
    assert_eq!(sn.direction, SnakeDirection::Right);
    snake_movement(&mut s, no_input(), 250);
    let sn = s.snake.unwrap();
    assert_eq!(sn.position, GridPosition { x: 1, y: -6 });
    assert_eq!(sn.direction, SnakeDirection::Up);
}

/// A restart requested while a game is playing is ignored: the game state
/// is unchanged and only the expired request leaves its queue.
#[test]
fn restart_while_playing_is_a_no_op() {
    let mut s = SimState::new(550, 25, 250);
    s.tail.push(Tail { position: GridPosition { x: -1, y: -6 } });
    s.game.score = 7;
    s.restart_events.push(EventRestart);
    restart(&mut s);
    assert!(s.game.playing);
    assert_eq!(s.game.score, 7);
    assert_eq!(s.game.prev_scores, vec![0, 0, 0]);
    let sn = s.snake.unwrap();
    assert_eq!(sn.position, GridPosition { x: 0, y: -6 });
    assert_eq!(s.tail.len(), 1);
    assert!(s.fruit.is_none());
    assert!(s.restart_events.is_empty());
}

/// A game-over notification with a self-collision: moving into a tail
/// cell ends the game in the same way as a wall hit.
#[test]
fn self_collision_ends_game() {
    let mut s = SimState::new(550, 25, 250);
    s.tail.push(Tail { position: GridPosition { x: 1, y: -6 } });
    s.tail.push(Tail { position: GridPosition { x: 2, y: -6 } });
    frame(&mut s, no_input(), 250);
    assert!(!s.game.playing);
    assert!(s.snake.is_none());
    assert!(s.tail.is_empty());
}
