//! Tests of the simulation engine: construction, ticking, eating, dying.

use mato::constants::{
    APPLE_COUNT, INITIAL_STEP_DURATION, MIN_STEP_DURATION, STEP_DURATION_DECREMENT,
};
use mato::game::{Direction, Game};

fn assert_invariants(game: &Game) {
    // Apple set size is constant.
    assert_eq!(game.apples.len(), APPLE_COUNT);
    // Apples are interior and never on a worm cell; worm cells are interior
    // and distinct.
    for &(ax, ay) in &game.apples {
        assert!(1 <= ax && ax < game.arena_width - 1);
        assert!(1 <= ay && ay < game.arena_height - 1);
        assert!(!game.worm.contains(&(ax, ay)));
    }
    for (i, seg) in game.worm.iter().enumerate() {
        assert!(1 <= seg.0 && seg.0 < game.arena_width - 1);
        assert!(1 <= seg.1 && seg.1 < game.arena_height - 1);
        for other in &game.worm[i + 1..] {
            assert_ne!(seg, other);
        }
    }
    assert!(game.step_duration >= MIN_STEP_DURATION);
    assert!(game.step_duration <= INITIAL_STEP_DURATION);
}

#[test]
fn fresh_engine_state() {
    let game = Game::new(20, 15);
    assert_eq!(game.worm, vec![(10, 7)]);
    assert_eq!(game.direction, Direction::Right);
    assert_eq!(game.new_direction, None);
    assert_eq!(game.points, 0);
    assert_eq!(game.step_duration, INITIAL_STEP_DURATION);
    assert_eq!(game.frame_time, 0);
    assert!(game.alive);
    assert!(!game.grow);
    assert_invariants(&game);
}

#[test]
fn apple_spawns_on_free_interior_cell() {
    // A 4-by-4 arena has four interior cells and the worm sits on (2, 2):
    // wherever the sample fell, the apple must hold a free interior cell.
    for _ in 0..32 {
        let game = Game::new(4, 4);
        assert_eq!(game.worm, vec![(2, 2)]);
        assert_invariants(&game);
    }
    // One free column only.
    for _ in 0..32 {
        let game = Game::new(3, 15);
        assert_eq!(game.worm, vec![(1, 7)]);
        assert_invariants(&game);
    }
}

#[test]
fn tick_accumulates_time_before_stepping() {
    let mut game = Game::new(20, 15);
    assert!(!game.tick(499));
    assert_eq!(game.worm, vec![(10, 7)]);
    assert_eq!(game.frame_time, 499);
    assert!(game.tick(1));
    assert_eq!(game.worm[0], (11, 7));
    assert_eq!(game.frame_time, 0);
}

#[test]
fn excess_time_carries_over_without_a_burst() {
    let mut game = Game::new(20, 15);
    // Three step durations elapse at once: exactly one step is simulated,
    // the excess stays in the accumulator.
    assert!(game.tick(1500));
    assert_eq!(game.worm[0], (11, 7));
    assert_eq!(game.frame_time, 1000);
}

#[test]
fn worm_dies_on_the_right_wall() {
    // Arena 20 by 15, head at (10, 7) heading right: the ninth step would
    // enter the wall cell (19, 7), so it kills the worm and the head stays
    // at (18, 7).
    let mut game = Game::new(20, 15);
    for k in 1..=8u32 {
        assert!(game.tick(INITIAL_STEP_DURATION));
        assert!(game.alive, "step {k} should stay inside the arena");
        assert_eq!(game.worm[0], (10 + k, 7));
        assert_invariants(&game);
    }
    let points_before = game.points;
    let worm_before = game.worm.clone();
    assert!(game.tick(INITIAL_STEP_DURATION), "the fatal step still counts");
    assert!(!game.alive);
    assert_eq!(game.worm, worm_before, "a fatal step leaves the worm in place");
    assert_eq!(game.worm[0], (18, 7));
    assert_eq!(game.points, points_before);
    assert_invariants(&game);
}

#[test]
fn dead_engine_keeps_its_state() {
    let mut game = Game::new(20, 15);
    for _ in 0..9 {
        game.tick(INITIAL_STEP_DURATION);
    }
    assert!(!game.alive);
    let worm = game.worm.clone();
    let apples = game.apples.clone();
    let points = game.points;
    game.update_direction(Direction::Up);
    assert!(game.tick(game.step_duration));
    assert!(!game.alive);
    assert_eq!(game.worm, worm);
    assert_eq!(game.apples, apples);
    assert_eq!(game.points, points);
}

/// Drive the head one step toward the current apple, x first, then y.
/// With a single-segment worm no move can be fatal, the path staying in
/// the interior.
fn direction_toward(game: &Game) -> Option<Direction> {
    let (hx, hy) = game.worm[0];
    let (ax, ay) = game.apples[0];
    if hx < ax {
        Some(Direction::Right)
    } else if hx > ax {
        Some(Direction::Left)
    } else if hy < ay {
        Some(Direction::Down)
    } else if hy > ay {
        Some(Direction::Up)
    } else {
        None
    }
}

#[test]
fn eating_an_apple_grows_scores_and_accelerates() {
    let mut game = Game::new(20, 15);
    let mut steps = 0;
    while game.points == 0 {
        steps += 1;
        assert!(steps < 100, "the apple is at most 31 steps away");
        if let Some(d) = direction_toward(&game) {
            game.update_direction(d);
        }
        let len_before = game.worm.len();
        let duration_before = game.step_duration;
        assert!(game.tick(duration_before));
        assert!(game.alive);
        assert_invariants(&game);
        if game.points > 0 {
            // The tick that eats the apple: worm one longer, score raised
            // by 5000 / step_duration, step duration down one decrement.
            assert_eq!(game.worm.len(), len_before + 1);
            assert_eq!(game.points, 5000 / duration_before);
            assert_eq!(game.step_duration, duration_before - STEP_DURATION_DECREMENT);
        } else {
            assert_eq!(game.worm.len(), len_before);
            assert_eq!(game.step_duration, duration_before);
        }
    }
    assert_eq!(game.points, 10);
    assert_eq!(game.worm.len(), 2);
    assert_eq!(game.step_duration, 490);
}

#[test]
fn second_direction_change_is_dropped() {
    let mut game = Game::new(20, 15);
    game.update_direction(Direction::Up);
    game.update_direction(Direction::Down);
    assert_eq!(game.new_direction, Some(Direction::Up));
    assert!(game.tick(INITIAL_STEP_DURATION));
    assert_eq!(game.direction, Direction::Up);
    assert_eq!(game.worm[0], (10, 6));
    assert_eq!(game.new_direction, None);
}

#[test]
fn same_direction_is_never_queued() {
    let mut game = Game::new(20, 15);
    game.update_direction(Direction::Right);
    assert_eq!(game.new_direction, None);
    // And after a queued change it still compares against the current
    // direction, not the queued one.
    game.update_direction(Direction::Up);
    assert_eq!(game.new_direction, Some(Direction::Up));
}

#[test]
fn reset_matches_a_fresh_engine() {
    let mut game = Game::new(20, 15);
    game.update_direction(Direction::Down);
    for _ in 0..5 {
        game.tick(INITIAL_STEP_DURATION);
    }
    game.reset();
    let fresh = Game::new(20, 15);
    assert_eq!(game.worm, fresh.worm);
    assert_eq!(game.direction, fresh.direction);
    assert_eq!(game.new_direction, fresh.new_direction);
    assert_eq!(game.points, fresh.points);
    assert_eq!(game.step_duration, fresh.step_duration);
    assert_eq!(game.frame_time, fresh.frame_time);
    assert_eq!(game.alive, fresh.alive);
    assert_eq!(game.grow, fresh.grow);
    assert_eq!(game.apples.len(), fresh.apples.len());
    assert_invariants(&game);
}
