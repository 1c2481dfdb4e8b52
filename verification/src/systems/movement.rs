//! The player's logical position: one step per tick of the move timer.

use vstd::prelude::*;
use crate::components::GridPosition;
use crate::map::{is_obstacle, obstacle_at};
use crate::resources::{InputBuffer, MoveTimer};
use crate::systems::input::{buffered, ArrowKeys};
use crate::timer::{firings, lemma_tick_gating, state_of, timer_tick, total, TimerState};

verus! {

/// The coordinate next to `v` on the side that the sign of `d` names.
pub open spec fn neighbor(v: int, d: int) -> int {
    if d > 0 {
        v + 1
    } else if d < 0 {
        v - 1
    } else {
        v
    }
}

/// `v` is a coordinate of the grid.
pub open spec fn on_grid(v: int) -> bool {
    i64::MIN <= v <= i64::MAX
}

/// A player at `pos` can enter the cell `(x, y)`.
pub open spec fn can_enter(x: int, y: int) -> bool {
    on_grid(x) && on_grid(y) && !obstacle_at(x, y)
}

/// Where a player at `pos` stands after one step in direction `dir`: first the
/// horizontal neighbour is entered if it is free, then, from there, the
/// vertical one.
pub open spec fn stepped(pos: GridPosition, dir: InputBuffer) -> GridPosition {
    let nx = neighbor(pos.x as int, dir.x as int);
    let x = if can_enter(nx, pos.y as int) { nx } else { pos.x as int };
    let ny = neighbor(pos.y as int, dir.y as int);
    let y = if can_enter(x, ny) { ny } else { pos.y as int };
    GridPosition { x: x as i64, y: y as i64 }
}

fn step_coordinate(v: i64, d: i8) -> (r: Option<i64>)
    ensures
        r is Some <==> on_grid(neighbor(v as int, d as int)),
        r is Some ==> r.unwrap() == neighbor(v as int, d as int),
{
    if d > 0 {
        v.checked_add(1)
    } else if d < 0 {
        v.checked_sub(1)
    } else {
        Some(v)
    }
}

/// One step of a player at `pos` in direction `dir`.
pub fn apply_move(pos: GridPosition, dir: InputBuffer) -> (r: GridPosition)
    ensures
        r == stepped(pos, dir),
{
    let mut next = pos;
    if dir.x != 0 {
        if let Some(nx) = step_coordinate(pos.x, dir.x) {
            if !is_obstacle(nx, pos.y) {
                next.x = nx;
            }
        }
    }
    if dir.y != 0 {
        if let Some(ny) = step_coordinate(pos.y, dir.y) {
            if !is_obstacle(next.x, ny) {
                next.y = ny;
            }
        }
    }
    next
}

/// Advances the move timer by one frame. If the timer is then finished and a
/// direction is buffered, the player takes one step and the buffer is cleared;
/// otherwise position and buffer stay as they are.
pub fn move_player_tick(
    move_timer: &mut MoveTimer,
    delta_nanos: u64,
    input_buffer: &mut InputBuffer,
    grid_pos: &mut GridPosition,
)
    ensures
        state_of(final(move_timer).0) == state_of(old(move_timer).0).tick(delta_nanos as nat),
        tick_applies(state_of(old(move_timer).0), delta_nanos as nat, *old(input_buffer)) ==> {
            &&& *final(grid_pos) == stepped(*old(grid_pos), *old(input_buffer))
            &&& final(input_buffer).is_idle()
        },
        !tick_applies(state_of(old(move_timer).0), delta_nanos as nat, *old(input_buffer)) ==> {
            &&& *final(grid_pos) == *old(grid_pos)
            &&& *final(input_buffer) == *old(input_buffer)
        },
{
    timer_tick(&mut move_timer.0, delta_nanos);
    if move_timer.0.finished() {
        if input_buffer.x != 0 || input_buffer.y != 0 {
            *grid_pos = apply_move(*grid_pos, *input_buffer);
            *input_buffer = InputBuffer::idle();
        }
    }
}

/// A step never enters an obstacle, and each axis is decided on its own: a
/// blocked horizontal neighbour keeps the column and still lets the vertical
/// neighbour of that column be entered if it is free.
pub proof fn lemma_obstacle_blocks(pos: GridPosition, dir: InputBuffer)
    ensures
        ({
            let to = stepped(pos, dir);
            let beside = neighbor(pos.x as int, dir.x as int);
            let above = neighbor(pos.y as int, dir.y as int);
            &&& obstacle_at(beside, pos.y as int) ==> to.x == pos.x
            &&& obstacle_at(to.x as int, above) ==> to.y == pos.y
            &&& can_enter(to.x as int, above) ==> to.y == above
            &&& to != pos ==> !obstacle_at(to.x as int, to.y as int)
        }),
{
}

/// A frame of `delta` nanoseconds makes a player with buffer `dir` step.
pub open spec fn tick_applies(timer: TimerState, delta: nat, dir: InputBuffer) -> bool {
    timer.tick(delta).finished && !dir.is_idle()
}

/// What one frame brings: the arrow keys held, whether a menu is open, and
/// the time since the frame before, in nanoseconds.
pub struct Frame {
    pub keys: ArrowKeys,
    pub menu_open: bool,
    pub delta: nat,
}

/// The times of the frames, in their order.
pub open spec fn deltas(frames: Seq<Frame>) -> Seq<nat> {
    frames.map_values(|f: Frame| f.delta)
}

/// On how many of the frames the player steps, when on each frame first the
/// keys are read into the buffer and then the move timer is advanced.
pub open spec fn steps_taken(timer: TimerState, buffer: InputBuffer, frames: Seq<Frame>) -> nat
    decreases frames.len(),
{
    if frames.len() == 0 {
        0
    } else {
        let held = buffered(buffer, frames[0].keys, frames[0].menu_open);
        let steps = tick_applies(timer, frames[0].delta, held);
        (if steps { 1nat } else { 0nat }) + steps_taken(
            timer.tick(frames[0].delta),
            if steps { InputBuffer { x: 0, y: 0 } } else { held },
            frames.drop_first(),
        )
    }
}

/// The player steps at most once each time the move timer is finished, and
/// exactly once where a direction is held and no menu is open on every frame.
pub proof fn lemma_steps_follow_firings(timer: TimerState, buffer: InputBuffer, frames: Seq<Frame>)
    ensures
        steps_taken(timer, buffer, frames) <= firings(timer, deltas(frames)),
        (forall|i: int|
            0 <= i < frames.len() ==> !(#[trigger] frames[i]).menu_open
                && !frames[i].keys.direction().is_idle()) ==> steps_taken(timer, buffer, frames)
            == firings(timer, deltas(frames)),
    decreases frames.len(),
{
    if frames.len() > 0 {
        let held = buffered(buffer, frames[0].keys, frames[0].menu_open);
        let steps = tick_applies(timer, frames[0].delta, held);
        let rest = frames.drop_first();
        assert(deltas(frames).drop_first() =~= deltas(rest));
        assert(deltas(frames)[0] == frames[0].delta);
        lemma_steps_follow_firings(
            timer.tick(frames[0].delta),
            if steps { InputBuffer { x: 0, y: 0 } } else { held },
            rest,
        );
        if forall|i: int|
            0 <= i < frames.len() ==> !(#[trigger] frames[i]).menu_open
                && !frames[i].keys.direction().is_idle() {
            assert(!frames[0].menu_open && !frames[0].keys.direction().is_idle());
            assert forall|i: int| 0 <= i < rest.len() implies !(#[trigger] rest[i]).menu_open
                && !rest[i].keys.direction().is_idle() by {
                assert(rest[i] == frames[i + 1]);
            }
        }
    }
}

/// Tick gating: with a running repeating move timer and frames of which none
/// is longer than its period, the player steps at most once per whole period
/// that has passed (frames that sum to one period give at most one step), and
/// exactly once per period where a direction is held on every frame (frames
/// that sum to two and a half periods give two steps).
pub proof fn lemma_tick_gating_of_steps(timer: TimerState, buffer: InputBuffer, frames: Seq<Frame>)
    requires
        timer.repeating(),
        !timer.paused,
        0 < timer.duration <= u64::MAX,
        timer.elapsed < timer.duration,
        forall|i: int| 0 <= i < frames.len() ==> (#[trigger] frames[i]).delta <= timer.duration,
    ensures
        steps_taken(timer, buffer, frames) <= (timer.elapsed + total(deltas(frames)))
            / timer.duration,
        (forall|i: int|
            0 <= i < frames.len() ==> !(#[trigger] frames[i]).menu_open
                && !frames[i].keys.direction().is_idle()) ==> steps_taken(timer, buffer, frames)
            == (timer.elapsed + total(deltas(frames))) / timer.duration,
{
    lemma_steps_follow_firings(timer, buffer, frames);
    assert forall|i: int| 0 <= i < deltas(frames).len() implies deltas(frames)[i]
        <= timer.duration by {
        assert(deltas(frames)[i] == frames[i].delta);
    }
    lemma_tick_gating(timer, deltas(frames));
}

} // verus!
