use bevy::time::{Timer, TimerMode};
use evolution_origin::components::GridPosition;
use evolution_origin::map::is_obstacle;
use evolution_origin::resources::{InputBuffer, MoveTimer};
use evolution_origin::systems::input::{direction_symbol, handle_movement_input, ArrowKeys};
use evolution_origin::systems::movement::{apply_move, move_player_tick};
use std::time::Duration;

const SECOND: u64 = 1_000_000_000;

fn move_timer() -> MoveTimer {
    MoveTimer::new(Timer::new(Duration::from_secs(1), TimerMode::Repeating))
}

fn keys(up: bool, down: bool, left: bool, right: bool) -> ArrowKeys {
    ArrowKeys { up, down, left, right }
}

#[test]
fn move_timer_keeps_the_timer_it_is_given() {
    let timer = MoveTimer::new(Timer::new(Duration::from_millis(250), TimerMode::Once));
    assert_eq!(timer.0.duration(), Duration::from_millis(250));
    assert_eq!(timer.0.mode(), TimerMode::Once);
    assert!(!timer.0.finished());
}

#[test]
fn a_step_to_the_right_after_one_full_tick() {
    let mut timer = move_timer();
    let mut buffer = InputBuffer { x: 1, y: 0 };
    let mut position = GridPosition { x: 0, y: 0 };
    move_player_tick(&mut timer, SECOND, &mut buffer, &mut position);
    let expected = if is_obstacle(1, 0) { GridPosition { x: 0, y: 0 } } else { GridPosition { x: 1, y: 0 } };
    assert_eq!(position, expected);
    assert_eq!(position, GridPosition { x: 1, y: 0 });
    assert_eq!(buffer, InputBuffer { x: 0, y: 0 });
}

#[test]
fn no_step_before_the_timer_is_finished() {
    let mut timer = move_timer();
    let mut buffer = InputBuffer { x: 1, y: 1 };
    let mut position = GridPosition { x: 0, y: 0 };
    move_player_tick(&mut timer, SECOND - 1, &mut buffer, &mut position);
    assert_eq!(position, GridPosition { x: 0, y: 0 });
    assert_eq!(buffer, InputBuffer { x: 1, y: 1 });
    assert_eq!(timer.0.elapsed(), Duration::from_nanos(SECOND - 1));
    move_player_tick(&mut timer, 1, &mut buffer, &mut position);
    assert_eq!(position, GridPosition { x: 1, y: 1 });
    assert_eq!(buffer, InputBuffer { x: 0, y: 0 });
    assert_eq!(timer.0.elapsed(), Duration::ZERO);
}

#[test]
fn no_step_without_a_direction() {
    let mut timer = move_timer();
    let mut buffer = InputBuffer { x: 0, y: 0 };
    let mut position = GridPosition { x: 4, y: -4 };
    move_player_tick(&mut timer, 3 * SECOND / 2, &mut buffer, &mut position);
    assert!(timer.0.finished());
    assert_eq!(timer.0.elapsed(), Duration::from_millis(500));
    assert_eq!(position, GridPosition { x: 4, y: -4 });
    assert_eq!(buffer, InputBuffer { x: 0, y: 0 });
}

#[test]
fn frames_of_one_second_in_all_give_at_most_one_step() {
    let mut timer = move_timer();
    let mut buffer = InputBuffer { x: 0, y: 0 };
    let mut position = GridPosition { x: 0, y: 0 };
    let mut steps = 0;
    for _ in 0..4 {
        handle_movement_input(keys(false, false, false, true), &mut buffer, false, false);
        let before = position;
        move_player_tick(&mut timer, SECOND / 4, &mut buffer, &mut position);
        if position != before {
            steps += 1;
        }
    }
    assert_eq!(steps, 1);
    assert_eq!(position, GridPosition { x: 1, y: 0 });
}

#[test]
fn frames_of_two_and_a_half_seconds_in_all_give_two_steps() {
    let mut timer = move_timer();
    let mut buffer = InputBuffer { x: 0, y: 0 };
    let mut position = GridPosition { x: 0, y: 0 };
    let mut fired = 0;
    for frame in 0..10 {
        let held = if frame < 4 { keys(false, false, false, true) } else { keys(true, false, false, false) };
        handle_movement_input(held, &mut buffer, false, false);
        move_player_tick(&mut timer, SECOND / 4, &mut buffer, &mut position);
        if timer.0.finished() {
            fired += 1;
        }
    }
    assert_eq!(fired, 2);
    assert_eq!(position, GridPosition { x: 1, y: 1 });
    assert_eq!(timer.0.elapsed(), Duration::from_millis(500));
}

#[test]
fn one_long_frame_gives_one_step() {
    let mut timer = move_timer();
    let mut buffer = InputBuffer { x: 1, y: 0 };
    let mut position = GridPosition { x: 0, y: 0 };
    move_player_tick(&mut timer, 5 * SECOND / 2, &mut buffer, &mut position);
    assert_eq!(position, GridPosition { x: 1, y: 0 });
    assert_eq!(timer.0.elapsed(), Duration::from_millis(500));
}

#[test]
fn only_the_latest_direction_is_applied() {
    let mut timer = move_timer();
    let mut buffer = InputBuffer { x: 0, y: 0 };
    let mut position = GridPosition { x: 0, y: 0 };
    handle_movement_input(keys(false, false, false, true), &mut buffer, false, false);
    move_player_tick(&mut timer, SECOND / 2, &mut buffer, &mut position);
    handle_movement_input(keys(false, true, false, false), &mut buffer, false, false);
    move_player_tick(&mut timer, SECOND / 2, &mut buffer, &mut position);
    assert_eq!(position, GridPosition { x: 0, y: -1 });
}

#[test]
fn a_released_key_is_still_applied() {
    let mut timer = move_timer();
    let mut buffer = InputBuffer { x: 0, y: 0 };
    let mut position = GridPosition { x: 0, y: 0 };
    handle_movement_input(keys(false, false, true, false), &mut buffer, false, false);
    handle_movement_input(keys(false, false, false, false), &mut buffer, false, false);
    assert_eq!(buffer, InputBuffer { x: -1, y: 0 });
    move_player_tick(&mut timer, SECOND, &mut buffer, &mut position);
    assert_eq!(position, GridPosition { x: -1, y: 0 });
}

#[test]
fn an_obstacle_blocks_its_axis_only() {
    assert!(is_obstacle(10, 0));
    assert!(!is_obstacle(9, 1));
    let moved = apply_move(GridPosition { x: 9, y: 0 }, InputBuffer { x: 1, y: 1 });
    assert_eq!(moved, GridPosition { x: 9, y: 1 });
    let blocked = apply_move(GridPosition { x: 9, y: 0 }, InputBuffer { x: 1, y: 0 });
    assert_eq!(blocked, GridPosition { x: 9, y: 0 });
    assert!(is_obstacle(0, -9));
    let down = apply_move(GridPosition { x: 0, y: -8 }, InputBuffer { x: -1, y: -1 });
    assert_eq!(down, GridPosition { x: -1, y: -9 });
    let straight = apply_move(GridPosition { x: 0, y: -8 }, InputBuffer { x: 0, y: -1 });
    assert_eq!(straight, GridPosition { x: 0, y: -8 });
}

#[test]
fn the_vertical_step_starts_from_the_new_column() {
    assert!(is_obstacle(8, -1));
    assert!(!is_obstacle(8, 0));
    assert!(!is_obstacle(7, -1));
    let moved = apply_move(GridPosition { x: 7, y: 0 }, InputBuffer { x: 1, y: -1 });
    assert_eq!(moved, GridPosition { x: 8, y: 0 });
}

#[test]
fn a_blocked_tick_still_clears_the_buffer() {
    let mut timer = move_timer();
    let mut buffer = InputBuffer { x: 1, y: 0 };
    let mut position = GridPosition { x: 9, y: 0 };
    move_player_tick(&mut timer, SECOND, &mut buffer, &mut position);
    assert_eq!(position, GridPosition { x: 9, y: 0 });
    assert_eq!(buffer, InputBuffer { x: 0, y: 0 });
}

#[test]
fn only_the_sign_of_a_direction_counts() {
    let moved = apply_move(GridPosition { x: 0, y: 0 }, InputBuffer { x: 100, y: -100 });
    assert_eq!(moved, GridPosition { x: 1, y: -1 });
}

#[test]
fn no_step_beyond_the_last_cell() {
    let corner = GridPosition { x: i64::MAX, y: i64::MIN };
    assert_eq!(apply_move(corner, InputBuffer { x: 1, y: -1 }), corner);
    let back = apply_move(corner, InputBuffer { x: -1, y: 1 });
    assert_eq!(back, GridPosition { x: i64::MAX - 1, y: i64::MIN + 1 });
}

#[test]
fn a_paused_timer_never_fires() {
    let mut inner = Timer::new(Duration::from_secs(1), TimerMode::Repeating);
    inner.pause();
    let mut timer = MoveTimer::new(inner);
    let mut buffer = InputBuffer { x: 1, y: 0 };
    let mut position = GridPosition { x: 0, y: 0 };
    move_player_tick(&mut timer, 10 * SECOND, &mut buffer, &mut position);
    assert_eq!(position, GridPosition { x: 0, y: 0 });
    assert_eq!(buffer, InputBuffer { x: 1, y: 0 });
}

#[test]
fn held_keys_become_a_direction() {
    let mut buffer = InputBuffer { x: 0, y: 0 };
    handle_movement_input(keys(true, false, false, true), &mut buffer, false, false);
    assert_eq!(buffer, InputBuffer { x: 1, y: 1 });
    handle_movement_input(keys(false, true, true, false), &mut buffer, false, false);
    assert_eq!(buffer, InputBuffer { x: -1, y: -1 });
    handle_movement_input(keys(true, true, true, false), &mut buffer, false, false);
    assert_eq!(buffer, InputBuffer { x: -1, y: 0 });
}

#[test]
fn opposite_keys_ask_for_nothing() {
    let mut buffer = InputBuffer { x: 0, y: 1 };
    handle_movement_input(keys(true, true, true, true), &mut buffer, false, false);
    assert_eq!(buffer, InputBuffer { x: 0, y: 1 });
}

#[test]
fn an_open_menu_clears_the_buffer() {
    let mut buffer = InputBuffer { x: 1, y: 1 };
    handle_movement_input(keys(true, false, false, false), &mut buffer, true, false);
    assert_eq!(buffer, InputBuffer { x: 0, y: 0 });
    let mut other = InputBuffer { x: -1, y: 0 };
    handle_movement_input(keys(false, false, false, true), &mut other, false, true);
    assert_eq!(other, InputBuffer { x: 0, y: 0 });
}

#[test]
fn the_symbol_shows_the_buffered_direction() {
    assert_eq!(direction_symbol(&InputBuffer { x: 0, y: 1 }), '^');
    assert_eq!(direction_symbol(&InputBuffer { x: 0, y: -1 }), 'v');
    assert_eq!(direction_symbol(&InputBuffer { x: 1, y: 0 }), '>');
    assert_eq!(direction_symbol(&InputBuffer { x: -1, y: 0 }), '<');
    assert_eq!(direction_symbol(&InputBuffer { x: 0, y: 0 }), '.');
    assert_eq!(direction_symbol(&InputBuffer { x: 1, y: 1 }), '^');
    assert_eq!(direction_symbol(&InputBuffer { x: -1, y: -1 }), 'v');
    assert_eq!(direction_symbol(&InputBuffer::idle()), '.');
}

#[test]
fn steps_never_outnumber_whole_periods() {
    let frames: [u64; 9] = [300, 700, 10, 990, 999, 1, 1000, 500, 499];
    let mut timer = move_timer();
    let mut buffer = InputBuffer { x: 0, y: 0 };
    let mut position = GridPosition { x: 0, y: 0 };
    let mut steps = 0;
    let mut passed: u64 = 0;
    for millis in frames {
        handle_movement_input(keys(false, false, false, true), &mut buffer, false, false);
        let before = position;
        move_player_tick(&mut timer, millis * 1_000_000, &mut buffer, &mut position);
        passed += millis;
        if position != before {
            steps += 1;
        }
        assert_eq!(steps, passed / 1000);
    }
    assert_eq!(steps, 4);
    assert_eq!(position, GridPosition { x: 4, y: 0 });
}
