use snake_game::fruit::fruit_spawner;
use snake_game::grid::GridPosition;
use snake_game::sim::SimState;
use snake_game::snake::{Fruit, Snake, SnakeDirection, Tail};

/// A spawned fruit lands strictly inside the walls and never on the
/// snake's head nor on any tail segment.
#[test]
fn spawned_fruit_avoids_snake_and_walls() {
    let mut s = SimState::new(550, 25, 250);
    s.tail.push(Tail { position: GridPosition { x: -1, y: -6 } });
    s.tail.push(Tail { position: GridPosition { x: -2, y: -6 } });
    fruit_spawner(&mut s);
    let fruit = s.fruit.expect("an almost empty grid has a free cell");
    assert!(fruit.position.x.abs() <= 10);
    assert!(fruit.position.y.abs() <= 10);
    let head = s.snake.unwrap().position;
    assert_ne!(fruit.position, head);
    for seg in &s.tail {
        assert_ne!(fruit.position, seg.position);
    }
}

/// On a grid whose only in-bounds cell is occupied, the bounded rejection
/// sampling gives up and skips spawning instead of spinning.
#[test]
fn spawner_skips_cycle_when_no_cell_is_free() {
    let mut s = SimState::new(25, 25, 250);
    s.snake = Some(Snake {
        position: GridPosition { x: 0, y: 0 },
        last_position: GridPosition { x: -1, y: 0 },
        direction: SnakeDirection::Right,
        movement_locked: false,
        next_move: SnakeDirection::Right,
    });
    fruit_spawner(&mut s);
    assert!(s.fruit.is_none());
}

/// No second fruit is spawned while one exists, and nothing is spawned
/// after play has stopped.
#[test]
fn spawner_respects_existing_fruit_and_stopped_play() {
    let mut s = SimState::new(550, 25, 250);
    let existing = Fruit { position: GridPosition { x: 3, y: 3 } };
    s.fruit = Some(existing);
    fruit_spawner(&mut s);
    assert_eq!(s.fruit.unwrap().position, existing.position);

    let mut stopped = SimState::new(550, 25, 250);
    stopped.game.playing = false;
    stopped.snake = None;
    fruit_spawner(&mut stopped);
    assert!(stopped.fruit.is_none());
}
