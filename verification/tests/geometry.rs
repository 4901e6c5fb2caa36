use snake_game::game::{insert_score, GameTimer};
use snake_game::grid::{grid_max, snake_pos_to_translation, GridPosition};
use snake_game::snake::SnakeDirection;

#[test]
fn it_works() {
    assert_eq!(2 + 2, 4);
}

#[test]
fn grid_max_of_default_config() {
    assert_eq!(grid_max(600, 25), 12);
}

#[test]
fn grid_max_of_eleven_cell_half_width() {
    assert_eq!(grid_max(550, 25), 11);
}

#[test]
fn grid_max_of_single_cell() {
    assert_eq!(grid_max(25, 25), 1);
}

#[test]
fn translation_scales_by_cell_size() {
    let p = GridPosition { x: 2, y: -3 };
    assert_eq!(snake_pos_to_translation(p, 25), (50, -75));
    let origin = GridPosition { x: 0, y: 0 };
    assert_eq!(snake_pos_to_translation(origin, 25), (0, 0));
}

#[test]
fn direction_unit_vectors() {
    assert_eq!(SnakeDirection::Up.into_vec2(), GridPosition { x: 0, y: 1 });
    assert_eq!(SnakeDirection::Down.into_vec2(), GridPosition { x: 0, y: -1 });
    assert_eq!(SnakeDirection::Left.into_vec2(), GridPosition { x: -1, y: 0 });
    assert_eq!(SnakeDirection::Right.into_vec2(), GridPosition { x: 1, y: 0 });
}

#[test]
fn direction_inverse_pairs() {
    assert_eq!(SnakeDirection::Up.inverse(), SnakeDirection::Down);
    assert_eq!(SnakeDirection::Down.inverse(), SnakeDirection::Up);
    assert_eq!(SnakeDirection::Left.inverse(), SnakeDirection::Right);
    assert_eq!(SnakeDirection::Right.inverse(), SnakeDirection::Left);
    assert!(SnakeDirection::Left.is_inverse(SnakeDirection::Right));
    assert!(!SnakeDirection::Left.is_inverse(SnakeDirection::Up));
}

#[test]
fn direction_enumeration_order() {
    let dirs = SnakeDirection::enumerate();
    assert_eq!(
        dirs,
        vec![
            SnakeDirection::Up,
            SnakeDirection::Down,
            SnakeDirection::Left,
            SnakeDirection::Right
        ]
    );
}

#[test]
fn timer_accumulates_and_fires_once() {
    let mut t = GameTimer::new(250);
    t.tick(100);
    assert!(!t.finished);
    assert_eq!(t.elapsed_ms, 100);
    t.tick(150);
    assert!(t.finished);
    assert_eq!(t.elapsed_ms, 0);
    t.tick(300);
    assert!(t.finished);
    assert_eq!(t.elapsed_ms, 50);
    t.tick(100);
    assert!(!t.finished);
    assert_eq!(t.elapsed_ms, 150);
}

#[test]
fn score_insert_into_zeroed_history() {
    let history = vec![0, 0, 0];
    assert_eq!(insert_score(&history, 4), vec![4, 0, 0]);
}

#[test]
fn score_insert_into_middle_slot() {
    let history = vec![5, 3, 1];
    assert_eq!(insert_score(&history, 2), vec![5, 3, 2]);
}

#[test]
fn score_insert_below_full_history_is_dropped() {
    let history = vec![9, 8, 7];
    assert_eq!(insert_score(&history, 1), vec![9, 8, 7]);
}

#[test]
fn score_insert_equal_keeps_recent_first() {
    let history = vec![3, 1, 0];
    assert_eq!(insert_score(&history, 3), vec![3, 3, 1]);
}

#[test]
fn score_insert_into_short_history() {
    let history = vec![];
    assert_eq!(insert_score(&history, 6), vec![6]);
    let one = vec![9];
    assert_eq!(insert_score(&one, 6), vec![9, 6]);
}
