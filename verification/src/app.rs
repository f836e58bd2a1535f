//! The application state machine: consumes the frame's input events and a
//! time signal, drives the transitions between the start screen, play and
//! the game-over screen, and tells the host whether to redraw.
//!
//! The host loop owns one [`Game`] engine, feeds each frame's events and
//! times to the handler of the current state, and must treat any change of
//! state as "redraw needed", re-entering the new state's handler once
//! before rendering so that its state-entry timer starts from zero.

use vstd::prelude::*;

use crate::constants::{APPLE_COUNT, GAME_OVER_SCREEN_DURATION, GAME_OVER_SCREEN_SPEED,
    START_SCREEN_SPEED};
use crate::game::{fresh_game, interior_size, queue_direction, tick_rel, Direction, Game};

verus! {

/// The top-level application state. `Quit` is terminal: the host loop
/// stops on reaching it.
#[derive(PartialEq, Eq, Structural, Debug)]
pub enum AppState {
    Start,
    Game,
    GameOver,
    Quit,
}

/// A key identifier of interest to the state machine; every other key is
/// `Other`.
#[derive(Clone, Copy, PartialEq, Eq, Structural, Debug)]
pub enum Key {
    Escape,
    Up,
    Down,
    Left,
    Right,
    Other,
}

/// One abstract input event of a frame, as the host's input backend hands
/// them over.
#[derive(Clone, Copy, PartialEq, Eq, Structural, Debug)]
pub enum InputEvent {
    KeyDown(Key),
    RepaintRequested,
    QuitRequested,
}

/// The frame's time signal: elapsed time since the current application
/// state was entered, and since the previous frame. The host accumulates
/// `absolute` from the `diff`s, so `diff` never exceeds `absolute`.
#[derive(Clone, Copy, PartialEq, Eq, Structural, Debug)]
pub struct TimeUpdate {
    pub absolute: u32,
    pub diff: u32,
}

/// Did the animation phase of a blinking screen change between the
/// previous frame and this one? True exactly on phase boundaries.
pub open spec fn blink_boundary(tu: TimeUpdate, speed: u32) -> bool {
    (tu.absolute - tu.diff) / (speed as int) != tu.absolute as int / (speed as int)
}

/// The key of the first key-down event of the frame, if any.
pub open spec fn first_keydown(events: Seq<InputEvent>) -> Option<Key>
    decreases events.len(),
{
    if events.len() == 0 {
        None
    } else {
        match events[0] {
            InputEvent::KeyDown(k) => Some(k),
            _ => first_keydown(events.drop_first()),
        }
    }
}

/// Does the frame hold an Escape key-down?
pub open spec fn contains_escape(events: Seq<InputEvent>) -> bool {
    exists|i: int| 0 <= i < events.len() && events[i] == InputEvent::KeyDown(Key::Escape)
}

/// Does the frame hold a repaint request?
pub open spec fn has_repaint(events: Seq<InputEvent>) -> bool {
    exists|i: int| 0 <= i < events.len() && events[i] == InputEvent::RepaintRequested
}

/// The direction a key stands for, if any.
pub open spec fn direction_of_key(k: Key) -> Option<Direction> {
    match k {
        Key::Up => Some(Direction::Up),
        Key::Down => Some(Direction::Down),
        Key::Left => Some(Direction::Left),
        Key::Right => Some(Direction::Right),
        _ => None,
    }
}

/// The engine after one event is forwarded to it: a directional key-down
/// queues a direction change, everything else leaves it untouched.
pub open spec fn apply_event(g: Game, e: InputEvent) -> Game {
    match e {
        InputEvent::KeyDown(k) => match direction_of_key(k) {
            Some(d) => queue_direction(g, d),
            None => g,
        },
        _ => g,
    }
}

/// The engine after the frame's events are forwarded to it in order.
pub open spec fn apply_direction_events(g: Game, events: Seq<InputEvent>) -> Game
    decreases events.len(),
{
    if events.len() == 0 {
        g
    } else {
        apply_event(apply_direction_events(g, events.drop_last()), events.last())
    }
}

/// Forwarding events only ever touches the queued direction change: every
/// other part of the engine state stays as it was.
pub proof fn lemma_apply_direction_events_frame(g: Game, events: Seq<InputEvent>)
    ensures
        ({
            let g1 = apply_direction_events(g, events);
            &&& g1 == Game { new_direction: g1.new_direction, ..g }
        }),
    decreases events.len(),
{
    if events.len() > 0 {
        lemma_apply_direction_events_frame(g, events.drop_last());
    }
}

/// What the game-over handler returns: Escape or the auto-return timeout
/// lead back to the start screen, otherwise the screen stays up and
/// redraws on the blink boundaries of its animation.
pub open spec fn game_over_result(events: Seq<InputEvent>, tu: TimeUpdate) -> (AppState, bool) {
    if contains_escape(events) {
        (AppState::Start, false)
    } else if tu.absolute > GAME_OVER_SCREEN_DURATION {
        (AppState::Start, false)
    } else {
        (AppState::GameOver, blink_boundary(tu, GAME_OVER_SCREEN_SPEED))
    }
}

/// One frame of the start screen. Escape quits; any other key starts a
/// new game on a freshly reset engine; with no key pressed the screen
/// stays up and asks for a redraw on the blink boundaries of its
/// animation.
pub fn start(events: &Vec<InputEvent>, time_update: TimeUpdate, game: &mut Game) -> (r: (
    AppState,
    bool,
))
    requires
        old(game).wf(),
        time_update.diff <= time_update.absolute,
    ensures
        final(game).wf(),
        ({
            match first_keydown(events@) {
                Some(k) => if k == Key::Escape {
                    r == (AppState::Quit, false) && *final(game) == *old(game)
                } else {
                    r == (AppState::Game, true) && fresh_game(
                        *final(game),
                        old(game).arena_width,
                        old(game).arena_height,
                    )
                },
                None => r == (AppState::Start, blink_boundary(time_update, START_SCREEN_SPEED))
                    && *final(game) == *old(game),
            }
        }),
{
    let mut idx: usize = 0;
    proof {
        assert(events@.skip(0) =~= events@);
    }
    while idx < events.len()
        invariant
            idx <= events@.len(),
            first_keydown(events@) == first_keydown(events@.skip(idx as int)),
            forall|k: int| 0 <= k < idx ==> !(#[trigger] events@[k] is KeyDown),
            *game == *old(game),
            old(game).wf(),
        decreases events@.len() - idx,
    {
        match events[idx] {
            InputEvent::KeyDown(key) => {
                proof {
                    assert(events@.skip(idx as int)[0] == events@[idx as int]);
                }
                if matches!(key, Key::Escape) {
                    return (AppState::Quit, false);
                }
                game.reset();
                return (AppState::Game, true);
            },
            _ => {
                proof {
                    assert(events@.skip(idx as int)[0] == events@[idx as int]);
                    assert(events@.skip(idx as int).drop_first() =~= events@.skip(idx as int + 1));
                }
            },
        }
        idx += 1;
    }
    proof {
        assert(events@.skip(idx as int).len() == 0);
    }
    let previous = (time_update.absolute - time_update.diff) / START_SCREEN_SPEED;
    let current = time_update.absolute / START_SCREEN_SPEED;
    (AppState::Start, previous != current)
}

/// One frame of play. Escape resets the engine and returns to the start
/// screen. Directional key-downs are forwarded to the engine in order; a
/// repaint request forces a redraw. A dead engine moves to the game-over
/// screen without ticking; otherwise the engine ticks by the frame's time
/// difference and a redraw is asked for when the tick stepped or a
/// repaint was requested.
pub fn game(events: &Vec<InputEvent>, time_update: TimeUpdate, engine: &mut Game) -> (r: (
    AppState,
    bool,
))
    requires
        old(engine).wf(),
        old(engine).worm@.len() + APPLE_COUNT < interior_size(
            old(engine).arena_width,
            old(engine).arena_height,
        ),
    ensures
        final(engine).wf(),
        ({
            let g1 = apply_direction_events(*old(engine), events@);
            if contains_escape(events@) {
                r == (AppState::Start, true) && fresh_game(
                    *final(engine),
                    old(engine).arena_width,
                    old(engine).arena_height,
                )
            } else if !g1.alive {
                r == (AppState::GameOver, true) && *final(engine) == g1
            } else {
                &&& tick_rel(g1, time_update.diff, *final(engine))
                &&& r == (AppState::Game, g1.steps(time_update.diff) || has_repaint(events@))
            }
        }),
{
    let mut redraw_needed = false;
    let mut idx: usize = 0;
    while idx < events.len()
        invariant
            idx <= events@.len(),
            old(engine).wf(),
            old(engine).worm@.len() + APPLE_COUNT < interior_size(
                old(engine).arena_width,
                old(engine).arena_height,
            ),
            !contains_escape(events@.take(idx as int)),
            *engine == apply_direction_events(*old(engine), events@.take(idx as int)),
            redraw_needed == has_repaint(events@.take(idx as int)),
        decreases events@.len() - idx,
    {
        let ghost prefix = events@.take(idx as int);
        proof {
            assert(events@.take(idx as int + 1).drop_last() =~= prefix);
            assert(events@.take(idx as int + 1).last() == events@[idx as int]);
            assert(forall|k: int|
                0 <= k < idx + 1 ==> events@.take(idx as int + 1)[k] == events@[k]);
        }
        let mut direction: Option<Direction> = None;
        match events[idx] {
            InputEvent::KeyDown(Key::Escape) => {
                proof {
                    lemma_apply_direction_events_frame(*old(engine), prefix);
                }
                engine.reset();
                return (AppState::Start, true);
            },
            InputEvent::KeyDown(Key::Up) => {
                direction = Some(Direction::Up);
            },
            InputEvent::KeyDown(Key::Down) => {
                direction = Some(Direction::Down);
            },
            InputEvent::KeyDown(Key::Right) => {
                direction = Some(Direction::Right);
            },
            InputEvent::KeyDown(Key::Left) => {
                direction = Some(Direction::Left);
            },
            InputEvent::RepaintRequested => {
                redraw_needed = true;
            },
            _ => {},
        }
        if let Some(d) = direction {
            engine.update_direction(d);
        }
        idx += 1;
    }
    proof {
        assert(events@.take(idx as int) =~= events@);
        lemma_apply_direction_events_frame(*old(engine), events@);
    }
    if !engine.alive {
        return (AppState::GameOver, true);
    }
    let stepped = engine.tick(time_update.diff);
    (AppState::Game, stepped || redraw_needed)
}

/// One frame of the game-over screen. Escape or the auto-return timeout
/// lead back to the start screen without a forced redraw; otherwise the
/// screen redraws on the blink boundaries of its animation.
pub fn game_over(events: &Vec<InputEvent>, time_update: TimeUpdate) -> (r: (AppState, bool))
    requires
        time_update.diff <= time_update.absolute,
    ensures
        r == game_over_result(events@, time_update),
{
    let mut idx: usize = 0;
    while idx < events.len()
        invariant
            idx <= events@.len(),
            !contains_escape(events@.take(idx as int)),
        decreases events@.len() - idx,
    {
        proof {
            assert(forall|k: int|
                0 <= k < idx + 1 ==> events@.take(idx as int + 1)[k] == events@[k]);
        }
        match events[idx] {
            InputEvent::KeyDown(Key::Escape) => {
                return (AppState::Start, false);
            },
            _ => {},
        }
        idx += 1;
    }
    proof {
        assert(events@.take(idx as int) =~= events@);
    }
    if time_update.absolute > GAME_OVER_SCREEN_DURATION {
        return (AppState::Start, false);
    }
    let previous = (time_update.absolute - time_update.diff) / GAME_OVER_SCREEN_SPEED;
    let current = time_update.absolute / GAME_OVER_SCREEN_SPEED;
    (AppState::GameOver, previous != current)
}

} // verus!
