//! Procedural placement: what a cell of the infinite grid holds is a function of
//! its coordinate alone.

use vstd::prelude::*;
use vstd::arithmetic::div_mod::{
    lemma_add_mod_noop, lemma_mod_self_0, lemma_mod_twice, lemma_mul_mod_noop_left, lemma_small_mod,
};

verus! {

/// Out of every hundred cells, this many hold an obstacle.
pub const OBSTACLE_DENSITY: u64 = 3;

/// Out of every `BOT_MODULO` eligible cells, this many anchor a bot.
pub const BOT_DENSITY: u64 = 1;

pub const BOT_MODULO: u64 = 200;

/// Cells with both coordinates strictly inside `(-SAFE_ZONE, SAFE_ZONE)` never anchor a bot.
pub const SAFE_ZONE: i64 = 10;

/// What a cell of the grid holds.
#[derive(Clone, Copy, PartialEq, Eq, Debug, Structural)]
pub enum Cell {
    Empty,
    Obstacle,
    BotAnchor,
}

/// `v` reduced to 128 bits.
pub open spec fn wrap128(v: int) -> u128 {
    (v % 0x1_0000_0000_0000_0000_0000_0000_0000_0000int) as u128
}

/// `v` reduced to 64 bits.
pub open spec fn wrap64(v: int) -> u64 {
    (v % 0x1_0000_0000_0000_0000) as u64
}

/// The 128-bit scramble of a coordinate that decides obstacles: a weighted sum
/// of the two axes, then two xor-shift-multiply rounds and a final xor-shift.
pub open spec fn obstacle_hash(x: int, y: int) -> u128 {
    let h0 = wrap128(x * 0x9E3779B97F4A7C15 + y * 0xBF58476D1CE4E5B9);
    let h1 = wrap128((h0 ^ (h0 >> 30)) * 0xBF58476D1CE4E5B9);
    let h2 = wrap128((h1 ^ (h1 >> 27)) * 0x94D049BB133111EB);
    h2 ^ (h2 >> 31)
}

/// The 64-bit scramble of a coordinate that decides bot anchors.
pub open spec fn anchor_hash(x: int, y: int) -> u64 {
    let h0 = wrap64(x * 0x9E3779B97F4A7C15);
    let h1 = wrap64((h0 ^ wrap64(y)) * 0xBF58476D1CE4E5B9);
    let h2 = wrap64((h1 ^ (h1 >> 27)) * 0x94D049BB133111EB);
    h2 ^ (h2 >> 31)
}

/// The cell at `(x, y)` holds an obstacle.
pub open spec fn obstacle_at(x: int, y: int) -> bool {
    !(x == 0 && y == 0) && obstacle_hash(x, y) % 100 < OBSTACLE_DENSITY
}

/// The cell at `(x, y)` lies in the bot-free square around the origin.
pub open spec fn in_safe_zone(x: int, y: int) -> bool {
    -SAFE_ZONE < x < SAFE_ZONE && -SAFE_ZONE < y < SAFE_ZONE
}

/// The cell at `(x, y)` anchors a bot.
pub open spec fn anchor_at(x: int, y: int) -> bool {
    !in_safe_zone(x, y) && !obstacle_at(x, y) && anchor_hash(x, y) % BOT_MODULO < BOT_DENSITY
}

/// What the cell at `(x, y)` holds.
pub open spec fn cell_at(x: int, y: int) -> Cell {
    if obstacle_at(x, y) {
        Cell::Obstacle
    } else if anchor_at(x, y) {
        Cell::BotAnchor
    } else {
        Cell::Empty
    }
}

proof fn lemma_widen128(x: i64)
    ensures
        x as u128 == wrap128(x as int),
{
    assert(x >= 0 ==> x as u128 == x) by (bit_vector);
    assert(x < 0 ==> x as u128 == x + 0x1_0000_0000_0000_0000_0000_0000_0000_0000int) by (bit_vector);
    if x >= 0 {
        lemma_small_mod(x as nat, 0x1_0000_0000_0000_0000_0000_0000_0000_0000nat);
    } else {
        let m = 0x1_0000_0000_0000_0000_0000_0000_0000_0000int;
        lemma_small_mod((x + m) as nat, m as nat);
        lemma_add_mod_noop(x as int, m, m);
        lemma_mod_self_0(m);
        lemma_mod_twice(x as int, m);
    }
}

/// Whether the cell at `(x, y)` holds an obstacle.
pub fn is_obstacle(x: i64, y: i64) -> (r: bool)
    ensures
        r == obstacle_at(x as int, y as int),
{
    if x == 0 && y == 0 {
        return false;
    }
    let xu: u128 = #[verifier::truncate] (x as u128);
    let yu: u128 = #[verifier::truncate] (y as u128);
    let a: u128 = xu.wrapping_mul(0x9E3779B97F4A7C15);
    let b: u128 = yu.wrapping_mul(0xBF58476D1CE4E5B9);
    let h0: u128 = a.wrapping_add(b);
    proof {
        let m = 0x1_0000_0000_0000_0000_0000_0000_0000_0000int;
        lemma_widen128(x);
        lemma_widen128(y);
        lemma_mul_mod_noop_left(x as int, 0x9E3779B97F4A7C15, m);
        lemma_mul_mod_noop_left(y as int, 0xBF58476D1CE4E5B9, m);
        lemma_add_mod_noop(x * 0x9E3779B97F4A7C15, y * 0xBF58476D1CE4E5B9, m);
        assert(h0 as int == (a + b) % m);
    }
    let h1: u128 = (h0 ^ (h0 >> 30)).wrapping_mul(0xBF58476D1CE4E5B9);
    let h2: u128 = (h1 ^ (h1 >> 27)).wrapping_mul(0x94D049BB133111EB);
    let h: u128 = h2 ^ (h2 >> 31);
    h % 100 < OBSTACLE_DENSITY as u128
}

proof fn lemma_narrow64(x: i64)
    ensures
        x as u64 == wrap64(x as int),
{
    assert(x >= 0 ==> x as u64 == x) by (bit_vector);
    assert(x < 0 ==> x as u64 == x + 0x1_0000_0000_0000_0000) by (bit_vector);
    let m = 0x1_0000_0000_0000_0000int;
    if x >= 0 {
        lemma_small_mod(x as nat, m as nat);
    } else {
        lemma_small_mod((x + m) as nat, m as nat);
        lemma_add_mod_noop(x as int, m, m);
        lemma_mod_self_0(m);
        lemma_mod_twice(x as int, m);
    }
}

/// Whether the cell at `(x, y)` anchors a bot.
pub fn is_bot_spawn(x: i64, y: i64) -> (r: bool)
    ensures
        r == anchor_at(x as int, y as int),
{
    if -SAFE_ZONE < x && x < SAFE_ZONE && -SAFE_ZONE < y && y < SAFE_ZONE {
        return false;
    }
    if is_obstacle(x, y) {
        return false;
    }
    let xu: u64 = #[verifier::truncate] (x as u64);
    let yu: u64 = #[verifier::truncate] (y as u64);
    proof {
        lemma_narrow64(x);
        lemma_narrow64(y);
    }
    let h0: u64 = xu.wrapping_mul(0x9E3779B97F4A7C15);
    proof {
        lemma_mul_mod_noop_left(x as int, 0x9E3779B97F4A7C15, 0x1_0000_0000_0000_0000);
    }
    let h1: u64 = (h0 ^ yu).wrapping_mul(0xBF58476D1CE4E5B9);
    let h2: u64 = (h1 ^ (h1 >> 27)).wrapping_mul(0x94D049BB133111EB);
    let h: u64 = h2 ^ (h2 >> 31);
    h % BOT_MODULO < BOT_DENSITY
}

/// What the cell at `(x, y)` holds. The answer depends on the coordinate alone:
/// it is `cell_at`, a function of `x` and `y`, on every call.
pub fn classify(x: i64, y: i64) -> (c: Cell)
    ensures
        c == cell_at(x as int, y as int),
{
    if is_obstacle(x, y) {
        Cell::Obstacle
    } else if is_bot_spawn(x, y) {
        Cell::BotAnchor
    } else {
        Cell::Empty
    }
}

/// The origin is always empty.
pub proof fn lemma_origin_is_empty()
    ensures
        cell_at(0, 0) == Cell::Empty,
{
}

/// No cell of the square around the origin anchors a bot.
pub proof fn lemma_no_anchor_near_origin(x: int, y: int)
    requires
        -10 < x < 10,
        -10 < y < 10,
    ensures
        !anchor_at(x, y),
        cell_at(x, y) != Cell::BotAnchor,
{
}

/// No cell holds an obstacle and anchors a bot at once.
pub proof fn lemma_obstacle_excludes_anchor(x: int, y: int)
    ensures
        !(obstacle_at(x, y) && anchor_at(x, y)),
        cell_at(x, y) == Cell::Obstacle <==> obstacle_at(x, y),
        cell_at(x, y) == Cell::BotAnchor <==> anchor_at(x, y),
{
}

} // verus!
