//! The data that entities of the world carry.

use vstd::prelude::*;
use crate::timer::{state_of, TimerState};

verus! {

/// A cell of the grid.
#[derive(Clone, Copy, PartialEq, Eq, Debug, Structural)]
pub struct GridPosition {
    pub x: i64,
    pub y: i64,
}

/// The cell a bot was created on: the centre of the box it wanders in.
#[derive(Clone, Copy, PartialEq, Eq, Debug, Structural)]
pub struct BotSpawnPoint {
    pub x: i64,
    pub y: i64,
}

/// The repeating timer that paces a bot's steps.
pub struct BotMoveTimer(pub bevy::time::Timer);

/// The text a bot shows above its head; empty when it shows none.
pub struct BotChatText(pub String);

/// The one-shot timer after which a bot's shown text is cleared.
pub struct BotChatTimer(pub bevy::time::Timer);

/// The one-shot timer during which a bot stands still because it talks.
pub struct BotTalking(pub bevy::time::Timer);

/// The line a bot was given when it was created, for as long as it lives.
pub struct BotDialogueText(pub String);

/// A bot: where it belongs, where it stands, what it says and its timers.
pub struct Bot {
    pub spawn_point: BotSpawnPoint,
    pub position: GridPosition,
    pub move_timer: BotMoveTimer,
    pub dialogue: BotDialogueText,
    pub talking: BotTalking,
    pub chat_text: BotChatText,
    pub chat_timer: BotChatTimer,
}

/// A bot as the rules see it.
pub struct BotView {
    pub anchor: GridPosition,
    pub position: GridPosition,
    pub move_timer: TimerState,
    pub dialogue: Seq<char>,
    pub talking: TimerState,
    pub chat_text: Seq<char>,
    pub chat_timer: TimerState,
}

impl View for Bot {
    type V = BotView;

    open spec fn view(&self) -> BotView {
        BotView {
            anchor: GridPosition { x: self.spawn_point.x, y: self.spawn_point.y },
            position: self.position,
            move_timer: state_of(self.move_timer.0),
            dialogue: self.dialogue.0@,
            talking: state_of(self.talking.0),
            chat_text: self.chat_text.0@,
            chat_timer: state_of(self.chat_timer.0),
        }
    }
}

/// The anchors of the bots of a list.
pub open spec fn anchors(bots: Seq<Bot>) -> Seq<GridPosition> {
    bots.map_values(|b: Bot| b@.anchor)
}

} // verus!
