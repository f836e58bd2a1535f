//! Tests of the application state machine.

use mato::app::{game, game_over, start, AppState, InputEvent, Key, TimeUpdate};
use mato::constants::{GAME_OVER_SCREEN_DURATION, INITIAL_STEP_DURATION};
use mato::game::{Direction, Game};

fn tu(absolute: u32, diff: u32) -> TimeUpdate {
    TimeUpdate { absolute, diff }
}

#[test]
fn start_screen_key_begins_a_game() {
    let mut engine = Game::new(20, 15);
    // Dirty the engine first, so the mandated reset is visible.
    engine.tick(INITIAL_STEP_DURATION);
    let events = vec![InputEvent::KeyDown(Key::Up)];
    let r = start(&events, tu(100, 10), &mut engine);
    assert_eq!(r, (AppState::Game, true));
    assert_eq!(engine.worm, vec![(10, 7)]);
    assert_eq!(engine.points, 0);
    assert!(engine.alive);
}

#[test]
fn start_screen_escape_quits() {
    let mut engine = Game::new(20, 15);
    let events = vec![InputEvent::RepaintRequested, InputEvent::KeyDown(Key::Escape)];
    let r = start(&events, tu(100, 10), &mut engine);
    assert_eq!(r, (AppState::Quit, false));
}

#[test]
fn start_screen_blinks_on_phase_boundaries() {
    let mut engine = Game::new(20, 15);
    // 240 / 250 == 260 / 250 is false: the phase changed.
    let r = start(&vec![], tu(260, 20), &mut engine);
    assert_eq!(r, (AppState::Start, true));
    // 220 / 250 == 240 / 250: same phase, no redraw.
    let r = start(&vec![], tu(240, 20), &mut engine);
    assert_eq!(r, (AppState::Start, false));
}

#[test]
fn playing_forwards_directions_in_order() {
    let mut engine = Game::new(20, 15);
    let events = vec![
        InputEvent::KeyDown(Key::Up),
        InputEvent::KeyDown(Key::Left),
        InputEvent::QuitRequested,
    ];
    // No time passes: no step, and only the first change is queued.
    let r = game(&events, tu(100, 0), &mut engine);
    assert_eq!(r, (AppState::Game, false));
    assert_eq!(engine.new_direction, Some(Direction::Up));
    assert_eq!(engine.direction, Direction::Right);
}

#[test]
fn playing_escape_resets_and_returns_to_start() {
    let mut engine = Game::new(20, 15);
    engine.tick(INITIAL_STEP_DURATION);
    let events = vec![InputEvent::KeyDown(Key::Down), InputEvent::KeyDown(Key::Escape)];
    let r = game(&events, tu(100, 10), &mut engine);
    assert_eq!(r, (AppState::Start, true));
    assert_eq!(engine.worm, vec![(10, 7)]);
    assert_eq!(engine.points, 0);
    assert_eq!(engine.new_direction, None);
}

#[test]
fn playing_repaint_request_forces_redraw() {
    let mut engine = Game::new(20, 15);
    let events = vec![InputEvent::RepaintRequested];
    let r = game(&events, tu(100, 0), &mut engine);
    assert_eq!(r, (AppState::Game, true));
}

#[test]
fn playing_tick_step_asks_for_redraw() {
    let mut engine = Game::new(20, 15);
    let r = game(&vec![], tu(600, 600), &mut engine);
    assert_eq!(r, (AppState::Game, true));
    assert_eq!(engine.worm[0], (11, 7));
}

#[test]
fn playing_dead_engine_moves_to_game_over_without_ticking() {
    let mut engine = Game::new(20, 15);
    for _ in 0..9 {
        engine.tick(INITIAL_STEP_DURATION);
    }
    assert!(!engine.alive);
    let frame_time_before = engine.frame_time;
    let worm_before = engine.worm.clone();
    // Plenty of frame time on offer: were tick invoked, it would consume it.
    let r = game(&vec![], tu(5000, 700), &mut engine);
    assert_eq!(r, (AppState::GameOver, true));
    assert_eq!(engine.frame_time, frame_time_before);
    assert_eq!(engine.worm, worm_before);
    assert!(!engine.alive);
}

#[test]
fn game_over_escape_returns_to_start() {
    let events = vec![InputEvent::KeyDown(Key::Escape)];
    let r = game_over(&events, tu(100, 10));
    assert_eq!(r, (AppState::Start, false));
}

#[test]
fn game_over_times_out_to_start() {
    let r = game_over(&vec![], tu(GAME_OVER_SCREEN_DURATION + 1, 10));
    assert_eq!(r, (AppState::Start, false));
}

#[test]
fn game_over_blinks_while_waiting() {
    // 90 / 100 != 110 / 100: phase boundary, redraw.
    let r = game_over(&vec![], tu(110, 20));
    assert_eq!(r, (AppState::GameOver, true));
    // 120 / 100 == 130 / 100: same phase.
    let r = game_over(&vec![], tu(130, 10));
    assert_eq!(r, (AppState::GameOver, false));
    // Other keys are ignored.
    let r = game_over(&vec![InputEvent::KeyDown(Key::Up)], tu(130, 10));
    assert_eq!(r, (AppState::GameOver, false));
}
