//! Bots: their creation where the camera looks, their removal far from it,
//! their wandering and their talk.

use vstd::prelude::*;
use bevy::time::TimerMode;
use crate::components::{
    anchors, Bot, BotChatText, BotChatTimer, BotDialogueText, BotMoveTimer, BotSpawnPoint,
    BotTalking, BotView, GridPosition,
};
use crate::map::{is_obstacle, obstacle_at, Cell};
use crate::random::{choose_line, random_in};
use crate::resources::BotDialogues;
use crate::view::{
    is_selection, lemma_edge_bounds, select_cells, visible_region, Region, Viewport,
};
use crate::constants::TILE_SIZE;
use crate::systems::movement::on_grid;
use crate::timer::{timer_new, timer_set_duration, timer_tick, TimerState};

verus! {

/// How far from its anchor a bot may wander on each axis, in cells.
pub const WANDER_RADIUS: i64 = 5;

/// The period of a new bot's move timer lies in `[SPAWN_PERIOD_MIN, SPAWN_PERIOD_MAX)`, in nanoseconds.
pub const SPAWN_PERIOD_MIN: u64 = 1_000_000_000;

pub const SPAWN_PERIOD_MAX: u64 = 3_000_000_000;

/// After each step the period of a bot's move timer is drawn anew from
/// `[WANDER_PERIOD_MIN, WANDER_PERIOD_MAX)`, in nanoseconds.
pub const WANDER_PERIOD_MIN: u64 = 500_000_000;

pub const WANDER_PERIOD_MAX: u64 = 2_000_000_000;

/// How long a bot shows what it said, in nanoseconds.
pub const CHAT_TIME: u64 = 3_000_000_000;

impl BotView {
    /// The cell `(x, y)` lies in the box around the bot's anchor.
    pub open spec fn box_holds(self, x: int, y: int) -> bool {
        &&& -WANDER_RADIUS <= x - self.anchor.x <= WANDER_RADIUS
        &&& -WANDER_RADIUS <= y - self.anchor.y <= WANDER_RADIUS
    }

    /// The bot stands in the box around its anchor.
    pub open spec fn in_box(self) -> bool {
        self.box_holds(self.position.x as int, self.position.y as int)
    }

    /// A bot as it is created on the cell `anchor`: it stands there, its move
    /// timer repeats with the given period, its talking timer is a one-shot
    /// timer of no length that has not ticked yet, and it shows no text.
    pub open spec fn newborn(anchor: GridPosition, period: nat, dialogue: Seq<char>) -> BotView {
        BotView {
            anchor,
            position: anchor,
            move_timer: TimerState::fresh(period, TimerMode::Repeating),
            dialogue,
            talking: TimerState::fresh(0, TimerMode::Once),
            chat_text: Seq::empty(),
            chat_timer: TimerState::fresh(CHAT_TIME as nat, TimerMode::Once),
        }
    }

    /// The bot after a frame of `delta` nanoseconds, before any step: the
    /// talking timer ticks, and the move timer ticks only if the talking
    /// timer is then finished.
    pub open spec fn advanced(self, delta: nat) -> BotView {
        let talking = self.talking.tick(delta);
        if talking.finished {
            BotView { talking, move_timer: self.move_timer.tick(delta), ..self }
        } else {
            BotView { talking, ..self }
        }
    }

    /// The bot is to take a step now: it is not talking and its move timer is finished.
    pub open spec fn is_due(self) -> bool {
        self.talking.finished && self.move_timer.finished
    }

    /// The cell next to the bot in `direction`: 0 is up, 1 down, 2 left, 3
    /// right; any other direction names the bot's own cell.
    pub open spec fn candidate(self, direction: int) -> (int, int) {
        let x = self.position.x as int;
        let y = self.position.y as int;
        if direction == 0 {
            (x, y + 1)
        } else if direction == 1 {
            (x, y - 1)
        } else if direction == 2 {
            (x - 1, y)
        } else if direction == 3 {
            (x + 1, y)
        } else {
            (x, y)
        }
    }

    /// The bot may step on the cell `(x, y)`: it is a cell of the grid, in the
    /// box around the anchor, and holds no obstacle.
    pub open spec fn may_enter(self, x: int, y: int) -> bool {
        on_grid(x) && on_grid(y) && self.box_holds(x, y) && !obstacle_at(x, y)
    }

    /// The bot after a step in `direction`: it stands on the candidate cell if
    /// it may enter it, and its move timer starts over with the new period
    /// either way.
    pub open spec fn wandered(self, direction: int, period: nat) -> BotView {
        let (x, y) = self.candidate(direction);
        BotView {
            position: if self.may_enter(x, y) {
                GridPosition { x: x as i64, y: y as i64 }
            } else {
                self.position
            },
            move_timer: self.move_timer.with_duration(period).reset(),
            ..self
        }
    }
}

/// Whether `v` lies within the wander radius of `center`.
fn near(v: i64, center: i64) -> (r: bool)
    ensures
        r == (-WANDER_RADIUS <= v - center <= WANDER_RADIUS),
{
    let d: i128 = v as i128 - center as i128;
    -(WANDER_RADIUS as i128) <= d && d <= WANDER_RADIUS as i128
}

impl Bot {
    /// Advances the bot's timers by a frame of `delta_nanos` nanoseconds and
    /// says whether the bot is to take a step now.
    pub fn advance(&mut self, delta_nanos: u64) -> (due: bool)
        ensures
            final(self)@ == old(self)@.advanced(delta_nanos as nat),
            due == final(self)@.is_due(),
    {
        timer_tick(&mut self.talking.0, delta_nanos);
        if !self.talking.0.finished() {
            return false;
        }
        timer_tick(&mut self.move_timer.0, delta_nanos);
        self.move_timer.0.finished()
    }

    /// Makes the bot take a step in `direction` (0 up, 1 down, 2 left, 3
    /// right) if the cell there can be entered, and restarts its move timer
    /// with the period `period_nanos`.
    pub fn wander(&mut self, direction: u8, period_nanos: u64)
        ensures
            final(self)@ == old(self)@.wandered(direction as int, period_nanos as nat),
    {
        let (dx, dy): (i64, i64) = match direction {
            0 => (0, 1),
            1 => (0, -1),
            2 => (-1, 0),
            3 => (1, 0),
            _ => (0, 0),
        };
        let next_x: Option<i64> = self.position.x.checked_add(dx);
        let next_y: Option<i64> = self.position.y.checked_add(dy);
        if let Some(x) = next_x {
            if let Some(y) = next_y {
                if near(x, self.spawn_point.x) && near(y, self.spawn_point.y) && !is_obstacle(x, y) {
                    self.position = GridPosition { x, y };
                }
            }
        }
        timer_set_duration(&mut self.move_timer.0, period_nanos);
        self.move_timer.0.reset();
    }
}

/// A new bot on the cell `(x, y)`, with the period of its move timer and its line.
pub fn spawn_single_bot(x: i64, y: i64, period_nanos: u64, dialogue: String) -> (bot: Bot)
    ensures
        bot@ == BotView::newborn(GridPosition { x, y }, period_nanos as nat, dialogue@),
{
    Bot {
        spawn_point: BotSpawnPoint { x, y },
        position: GridPosition { x, y },
        move_timer: BotMoveTimer(timer_new(period_nanos, TimerMode::Repeating)),
        dialogue: BotDialogueText(dialogue),
        talking: BotTalking(timer_new(0, TimerMode::Once)),
        chat_text: BotChatText(String::new()),
        chat_timer: BotChatTimer(timer_new(CHAT_TIME, TimerMode::Once)),
    }
}

/// Bots are created on the anchors under the viewport and this many cells around it.
pub const BOT_MARGIN: u8 = 2;

/// What a bot says when there is no line to pick.
pub const PLACEHOLDER: &'static str = "...";

/// `line` is what a bot says when its line is picked from `pool`: one of the
/// lines of the pool, or the placeholder where the pool is empty.
pub open spec fn picked_from(pool: Seq<String>, line: Seq<char>) -> bool {
    if pool.len() == 0 {
        line == PLACEHOLDER@
    } else {
        exists|k: int| 0 <= k < pool.len() && (#[trigger] pool[k])@ == line
    }
}

/// The line that a draw from a pool of lines gives: the line drawn, or the
/// placeholder where nothing could be drawn.
pub fn line_or_placeholder(drawn: Option<&String>) -> (line: String)
    ensures
        drawn is Some ==> line@ == drawn.unwrap()@,
        drawn is None ==> line@ == PLACEHOLDER@,
{
    match drawn {
        Some(text) => text.clone(),
        None => PLACEHOLDER.to_owned(),
    }
}

/// A random line of the pool, or the placeholder where the pool is empty.
pub fn pick_dialogue(bot_dialogues: &BotDialogues) -> (line: String)
    ensures
        picked_from(bot_dialogues.lines@, line@),
{
    let drawn = choose_line(&bot_dialogues.lines);
    proof {
        if drawn is Some {
            let text = *drawn.unwrap();
            let k = choose|k: int|
                0 <= k < bot_dialogues.lines@.len() && bot_dialogues.lines@[k] == text;
            assert(bot_dialogues.lines@[k]@ == text@);
        }
    }
    line_or_placeholder(drawn)
}

/// No two bots of the list have the same anchor.
pub open spec fn distinct_anchors(bots: Seq<Bot>) -> bool {
    forall|i: int, j: int| 0 <= i < j < bots.len() ==> bots[i]@.anchor != bots[j]@.anchor
}

/// The bot was just created on its anchor, with a period from the spawn range
/// and a line picked from `pool`.
pub open spec fn is_newborn(bot: BotView, pool: Seq<String>) -> bool {
    exists|period: nat, line: Seq<char>|
        SPAWN_PERIOD_MIN <= period < SPAWN_PERIOD_MAX && picked_from(pool, line) && bot
            == #[trigger] BotView::newborn(bot.anchor, period, line)
}

/// `after` is what creating the missing bots of `region` makes of `before`:
/// the bots there were stay, in place and as they are; behind them stands one
/// new bot for each anchor cell of the region on which no bot of `before` is
/// anchored, in reading order.
pub open spec fn spawned_from(
    before: Seq<Bot>,
    after: Seq<Bot>,
    region: Region,
    pool: Seq<String>,
) -> bool {
    &&& before.len() <= after.len()
    &&& after.subrange(0, before.len() as int) == before
    &&& is_selection(
        anchors(after.subrange(before.len() as int, after.len() as int)),
        region,
        Cell::BotAnchor,
        anchors(before),
    )
    &&& forall|i: int| before.len() <= i < after.len() ==> is_newborn((#[trigger] after[i])@, pool)
}

/// The anchors of the bots, in the order of the bots.
pub fn bot_anchors(bots: &Vec<Bot>) -> (out: Vec<GridPosition>)
    ensures
        out@ == anchors(bots@),
{
    let mut out: Vec<GridPosition> = Vec::new();
    let mut i: usize = 0;
    while i < bots.len()
        invariant
            i <= bots.len(),
            out@ == anchors(bots@.subrange(0, i as int)),
        decreases bots.len() - i,
    {
        out.push(GridPosition { x: bots[i].spawn_point.x, y: bots[i].spawn_point.y });
        i += 1;
        assert(out@ =~= anchors(bots@.subrange(0, i as int)));
    }
    assert(bots@.subrange(0, bots.len() as int) =~= bots@);
    out
}

/// Creates a bot on every anchor cell under the viewport, and up to
/// `BOT_MARGIN` cells around it, on which no bot is anchored yet. Without a
/// viewport nothing changes.
pub fn spawn_visible_bots(bots: &mut Vec<Bot>, view: Option<&Viewport>, bot_dialogues: &BotDialogues)
    ensures
        view is None ==> final(bots)@ == old(bots)@,
        view is Some ==> spawned_from(
            old(bots)@,
            final(bots)@,
            view.unwrap().region(BOT_MARGIN),
            bot_dialogues.lines@,
        ),
        distinct_anchors(old(bots)@) ==> distinct_anchors(final(bots)@),
{
    let region = match view {
        Some(v) => visible_region(v, BOT_MARGIN),
        None => { return ; },
    };
    let taken = bot_anchors(bots);
    let cells = select_cells(&region, Cell::BotAnchor, &taken);
    let ghost before = bots@;
    let mut i: usize = 0;
    while i < cells.len()
        invariant
            i <= cells.len(),
            bots@.len() == before.len() + i,
            bots@.subrange(0, before.len() as int) == before,
            anchors(bots@.subrange(before.len() as int, bots@.len() as int)) == cells@.subrange(
                0,
                i as int,
            ),
            forall|k: int|
                before.len() <= k < bots@.len() ==> is_newborn(
                    (#[trigger] bots@[k])@,
                    bot_dialogues.lines@,
                ),
        decreases cells.len() - i,
    {
        let period: u64 = random_in(SPAWN_PERIOD_MIN, SPAWN_PERIOD_MAX);
        let dialogue = pick_dialogue(bot_dialogues);
        let ghost line = dialogue@;
        let bot = spawn_single_bot(cells[i].x, cells[i].y, period, dialogue);
        assert(bot@ == BotView::newborn(bot@.anchor, period as nat, line));
        let ghost earlier = bots@;
        bots.push(bot);
        i += 1;
        proof {
            assert(bots@.subrange(0, before.len() as int) =~= earlier.subrange(
                0,
                before.len() as int,
            ));
            assert(anchors(bots@.subrange(before.len() as int, bots@.len() as int)) =~= anchors(
                earlier.subrange(before.len() as int, earlier.len() as int),
            ).push(cells@[i - 1]));
            assert(cells@.subrange(0, i as int) =~= cells@.subrange(0, i - 1).push(cells@[i - 1]));
        }
    }
    proof {
        assert(cells@.subrange(0, cells@.len() as int) =~= cells@);
        if distinct_anchors(before) {
            lemma_spawn_keeps_anchors_distinct(before, bots@, region, bot_dialogues.lines@);
        }
    }
}

/// Creating the missing bots never gives two bots the same anchor.
pub proof fn lemma_spawn_keeps_anchors_distinct(
    before: Seq<Bot>,
    after: Seq<Bot>,
    region: Region,
    pool: Seq<String>,
)
    requires
        spawned_from(before, after, region, pool),
        distinct_anchors(before),
    ensures
        distinct_anchors(after),
{
    let n = before.len() as int;
    let fresh = anchors(after.subrange(n, after.len() as int));
    assert forall|i: int, j: int| 0 <= i < j < after.len() implies after[i]@.anchor
        != after[j]@.anchor by {
        if j < n {
            assert(after.subrange(0, n)[i] == after[i]);
            assert(after.subrange(0, n)[j] == after[j]);
            assert(before[i]@.anchor != before[j]@.anchor);
        } else if i < n {
            assert(after.subrange(0, n)[i] == after[i]);
            assert(anchors(before)[i] == after[i]@.anchor);
            assert(after.subrange(n, after.len() as int)[j - n] == after[j]);
            assert(fresh[j - n] == after[j]@.anchor);
            assert(fresh.contains(fresh[j - n]));
            if after[i]@.anchor == after[j]@.anchor {
                assert(anchors(before).contains(anchors(before)[i]));
            }
        } else {
            assert(after.subrange(n, after.len() as int)[i - n] == after[i]);
            assert(after.subrange(n, after.len() as int)[j - n] == after[j]);
            assert(fresh[i - n] == after[i]@.anchor);
            assert(fresh[j - n] == after[j]@.anchor);
            assert(crate::view::precedes(fresh[i - n], fresh[j - n]));
        }
    }
}

/// Creating the missing bots twice for the same region creates nothing the
/// second time: the list of bots, and so their number, stays as it was.
pub proof fn lemma_spawn_is_idempotent(
    first: Seq<Bot>,
    second: Seq<Bot>,
    third: Seq<Bot>,
    region: Region,
    pool: Seq<String>,
)
    requires
        spawned_from(first, second, region, pool),
        spawned_from(second, third, region, pool),
    ensures
        third == second,
        third.len() == second.len(),
{
    let n = first.len() as int;
    let m = second.len() as int;
    let fresh = anchors(second.subrange(n, m));
    let again = anchors(third.subrange(m, third.len() as int));
    if third.len() > m {
        let p = again[0];
        assert(again.contains(p));
        if anchors(first).contains(p) {
            let i = choose|i: int| 0 <= i < n && anchors(first)[i] == p;
            assert(second.subrange(0, n)[i] == second[i]);
            assert(anchors(second)[i] == p);
        } else {
            assert(fresh.contains(p));
            let i = choose|i: int| 0 <= i < fresh.len() && fresh[i] == p;
            assert(anchors(second)[n + i] == p);
        }
        assert(anchors(second).contains(p));
    }
    assert(third =~= third.subrange(0, m));
}

/// Removes every bot that stands farther from the camera than the despawn
/// limit of the viewport, and keeps the others in their order. Without a
/// viewport nothing changes.
pub fn despawn_far_bots(bots: &mut Vec<Bot>, view: Option<&Viewport>)
    ensures
        view is None ==> final(bots)@ == old(bots)@,
        view is Some ==> final(bots)@ == old(bots)@.filter(
            |b: Bot| !view.unwrap().is_far(b.position),
        ),
{
    let v = match view {
        Some(v) => v,
        None => { return ; },
    };
    let ghost before = bots@;
    let ghost keep = |b: Bot| !v.is_far(b.position);
    let ghost mut j: int = 0;
    let mut i: usize = 0;
    proof {
        reveal(Seq::filter);
        assert(before.subrange(0, 0).filter(keep) =~= bots@.subrange(0, 0));
        assert(bots@.subrange(0, bots@.len() as int) =~= before.subrange(0, before.len() as int));
    }
    while i < bots.len()
        invariant
            0 <= j <= before.len(),
            i <= bots.len(),
            bots.len() - i == before.len() - j,
            keep == (|b: Bot| !v.is_far(b.position)),
            bots@.subrange(0, i as int) == before.subrange(0, j).filter(keep),
            bots@.subrange(i as int, bots@.len() as int) == before.subrange(j, before.len() as int),
        decreases bots.len() - i,
    {
        let ghost earlier = bots@;
        assert(earlier[i as int] == earlier.subrange(i as int, earlier.len() as int)[0]);
        assert(earlier[i as int] == before[j]);
        proof {
            reveal(Seq::filter);
            assert(before.subrange(0, j + 1).drop_last() =~= before.subrange(0, j));
        }
        if v.far_from(bots[i].position) {
            bots.remove(i);
            proof {
                assert(bots@.subrange(0, i as int) =~= earlier.subrange(0, i as int));
                let tail = bots@.subrange(i as int, bots@.len() as int);
                assert forall|k: int| 0 <= k < tail.len() implies #[trigger] tail[k] == before[j
                    + 1 + k] by {
                    assert(earlier.subrange(i as int, earlier.len() as int)[k + 1] == earlier[i
                        + k + 1]);
                }
                assert(bots@.subrange(i as int, bots@.len() as int) =~= before.subrange(
                    j + 1,
                    before.len() as int,
                ));
            }
        } else {
            i += 1;
            proof {
                assert(bots@.subrange(0, i as int) =~= earlier.subrange(0, i - 1).push(before[j]));
                let tail = bots@.subrange(i as int, bots@.len() as int);
                assert forall|k: int| 0 <= k < tail.len() implies #[trigger] tail[k] == before[j
                    + 1 + k] by {
                    assert(earlier.subrange(i - 1, earlier.len() as int)[k + 1] == earlier[i + k]);
                }
                assert(bots@.subrange(i as int, bots@.len() as int) =~= before.subrange(
                    j + 1,
                    before.len() as int,
                ));
            }
        }
        proof {
            j = j + 1;
        }
    }
    proof {
        assert(bots@.subrange(0, i as int) =~= bots@);
        assert(before.subrange(0, j) =~= before);
    }
}

/// No cell on which bots are created is beyond the despawn limit of the same
/// viewport, if one side of the viewport measures at least 131 world pixels
/// (for every smaller viewport a camera position exists where a corner cell of
/// the spawn region lies beyond the limit).
pub proof fn lemma_hysteresis(view: Viewport, p: GridPosition)
    requires
        view.width >= 131 || view.height >= 131,
        view.region(BOT_MARGIN).holds(p),
    ensures
        !view.is_far(p),
{
    lemma_edge_bounds(view.center_x as int, view.width as int, BOT_MARGIN as int);
    lemma_edge_bounds(view.center_y as int, view.height as int, BOT_MARGIN as int);
    let dx = p.x * TILE_SIZE - view.center_x;
    let dy = p.y * TILE_SIZE - view.center_y;
    assert(dx == 40 * p.x - view.center_x);
    assert(dy == 40 * p.y - view.center_y);
    let w = view.width as int;
    let h = view.height as int;
    let m = view.despawn_limit() / 2;
    assert(-(w + 239) <= 2 * dx <= w + 239);
    assert(-(h + 239) <= 2 * dy <= h + 239);
    assert(-(m + 239) <= 2 * dx <= m + 239);
    assert(-(m + 239) <= 2 * dy <= m + 239);
    assert((2 * dx) * (2 * dx) <= (m + 239) * (m + 239)) by (nonlinear_arith)
        requires
            -(m + 239) <= 2 * dx <= m + 239,
    ;
    assert((2 * dy) * (2 * dy) <= (m + 239) * (m + 239)) by (nonlinear_arith)
        requires
            -(m + 239) <= 2 * dy <= m + 239,
    ;
    assert(2 * ((m + 239) * (m + 239)) <= 16 * (m * m)) by (nonlinear_arith)
        requires
            m >= 131,
    ;
    assert(4 * (dx * dx + dy * dy) == (2 * dx) * (2 * dx) + (2 * dy) * (2 * dy))
        by (nonlinear_arith);
    assert(view.despawn_limit() * view.despawn_limit() == 4 * (m * m)) by (nonlinear_arith)
        requires
            view.despawn_limit() == 2 * m,
    ;
}

/// A bot that was just created is not removed for the same viewport, if one
/// side of the viewport measures at least 131 world pixels.
pub proof fn lemma_newborn_is_kept(
    before: Seq<Bot>,
    after: Seq<Bot>,
    view: Viewport,
    pool: Seq<String>,
    i: int,
)
    requires
        view.width >= 131 || view.height >= 131,
        spawned_from(before, after, view.region(BOT_MARGIN), pool),
        before.len() <= i < after.len(),
    ensures
        !view.is_far(after[i].position),
        after.filter(|b: Bot| !view.is_far(b.position)).contains(after[i]),
{
    let n = before.len() as int;
    let fresh = anchors(after.subrange(n, after.len() as int));
    assert(after.subrange(n, after.len() as int)[i - n] == after[i]);
    assert(fresh[i - n] == after[i]@.anchor);
    assert(fresh.contains(fresh[i - n]));
    assert(is_newborn(after[i]@, pool));
    lemma_hysteresis(view, after[i].position);
    after.lemma_filter_contains(|b: Bot| !view.is_far(b.position), i);
}

/// What a frame of `delta` nanoseconds makes of a bot: its timers advance,
/// and if a step is then due it takes one, in one of the four directions and
/// with a new period from the wander range.
pub open spec fn wander_frame(before: BotView, after: BotView, delta: nat) -> bool {
    let mid = before.advanced(delta);
    if mid.is_due() {
        exists|direction: int, period: nat|
            0 <= direction < 4 && WANDER_PERIOD_MIN <= period < WANDER_PERIOD_MAX && after
                == #[trigger] mid.wandered(direction, period)
    } else {
        after == mid
    }
}

/// Advances every bot by a frame of `delta_nanos` nanoseconds. A bot that
/// talks stands still. A bot whose move timer is finished tries a step in a
/// random direction and gets a random new period.
pub fn bot_wander_system(bots: &mut Vec<Bot>, delta_nanos: u64)
    ensures
        final(bots).len() == old(bots).len(),
        forall|i: int|
            0 <= i < old(bots).len() ==> wander_frame(
                #[trigger] old(bots)@[i]@,
                final(bots)@[i]@,
                delta_nanos as nat,
            ),
        forall|i: int|
            0 <= i < old(bots).len() && (#[trigger] old(bots)@[i])@.in_box()
                ==> final(bots)@[i]@.in_box(),
{
    let mut i: usize = 0;
    while i < bots.len()
        invariant
            i <= bots.len(),
            bots.len() == old(bots).len(),
            forall|k: int|
                0 <= k < i ==> wander_frame(#[trigger] old(bots)@[k]@, bots@[k]@, delta_nanos as nat),
            forall|k: int|
                0 <= k < i && (#[trigger] old(bots)@[k])@.in_box() ==> bots@[k]@.in_box(),
            forall|k: int| i <= k < bots.len() ==> bots@[k] == old(bots)@[k],
        decreases bots.len() - i,
    {
        let due = bots[i].advance(delta_nanos);
        if due {
            let direction: u8 = random_in(0, 4) as u8;
            let period: u64 = random_in(WANDER_PERIOD_MIN, WANDER_PERIOD_MAX);
            let ghost mid = bots@[i as int]@;
            bots[i].wander(direction, period);
            assert(bots@[i as int]@ == mid.wandered(direction as int, period as nat));
        }
        i += 1;
    }
}

impl BotView {
    /// The bot after a frame of `delta` nanoseconds, as to what it shows: while
    /// it shows a text its chat timer ticks, and once that timer is finished
    /// the text is cleared.
    pub open spec fn chat_advanced(self, delta: nat) -> BotView {
        if self.chat_text.len() == 0 {
            self
        } else {
            let chat_timer = self.chat_timer.tick(delta);
            BotView {
                chat_timer,
                chat_text: if chat_timer.finished { Seq::empty() } else { self.chat_text },
                ..self
            }
        }
    }
}

impl Bot {
    /// Advances what the bot shows by a frame of `delta_nanos` nanoseconds.
    pub fn update_chat(&mut self, delta_nanos: u64)
        ensures
            final(self)@ == old(self)@.chat_advanced(delta_nanos as nat),
    {
        if !self.chat_text.0.as_str().is_empty() {
            timer_tick(&mut self.chat_timer.0, delta_nanos);
            if self.chat_timer.0.finished() {
                self.chat_text.0 = String::new();
            }
        }
    }
}

/// Advances what every bot shows by a frame of `delta_nanos` nanoseconds.
pub fn update_bot_chat(bots: &mut Vec<Bot>, delta_nanos: u64)
    ensures
        final(bots).len() == old(bots).len(),
        forall|i: int|
            0 <= i < old(bots).len() ==> (#[trigger] final(bots)@[i])@
                == old(bots)@[i]@.chat_advanced(delta_nanos as nat),
{
    let mut i: usize = 0;
    while i < bots.len()
        invariant
            i <= bots.len(),
            bots.len() == old(bots).len(),
            forall|k: int|
                0 <= k < i ==> (#[trigger] bots@[k])@ == old(bots)@[k]@.chat_advanced(
                    delta_nanos as nat,
                ),
            forall|k: int| i <= k < bots.len() ==> bots@[k] == old(bots)@[k],
        decreases bots.len() - i,
    {
        bots[i].update_chat(delta_nanos);
        i += 1;
    }
}

/// A frame keeps a bot in the box around its anchor and leaves the anchor and
/// the bot's own line as they are.
pub proof fn lemma_frame_stays_in_box(before: BotView, after: BotView, delta: nat)
    requires
        wander_frame(before, after, delta),
        before.in_box(),
    ensures
        after.in_box(),
        after.anchor == before.anchor,
        after.dialogue == before.dialogue,
{
}

/// While a bot talks, a frame moves neither the bot nor its move timer.
pub proof fn lemma_talking_bot_stands_still(before: BotView, after: BotView, delta: nat)
    requires
        wander_frame(before, after, delta),
        !before.talking.tick(delta).finished,
    ensures
        after.position == before.position,
        after.move_timer == before.move_timer,
{
}

/// A step keeps a bot in the box around its anchor, and so does a frame
/// without a step: a bot that starts in its box never leaves it.
pub proof fn lemma_wander_stays_in_box(bot: BotView, delta: nat, direction: int, period: nat)
    requires
        bot.in_box(),
    ensures
        bot.advanced(delta).in_box(),
        bot.wandered(direction, period).in_box(),
        bot.advanced(delta).anchor == bot.anchor,
        bot.wandered(direction, period).anchor == bot.anchor,
{
}

} // verus!
