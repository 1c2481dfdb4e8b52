//! What the player does: the direction asked for with the arrow keys, and the
//! words said to the bots nearby.

use vstd::prelude::*;
use crate::components::{Bot, BotView};
use crate::resources::{BotDialogues, InputBuffer};
use crate::systems::bot::{pick_dialogue, picked_from};
use crate::timer::timer_set_duration;
use crate::view::{apart, beyond, to_pixels};
use crate::constants::TILE_SIZE;

verus! {

/// How far from the player a bot hears what is said, in world pixels: four
/// and a half cells.
pub const TALK_RANGE: i64 = 180;

/// How long a bot stands still after it was spoken to, in nanoseconds.
pub const TALK_TIME: u64 = 3_000_000_000;

/// The word that a bot answers with its own line.
pub const GREETING: &'static str = "Hello";

/// Which arrow keys are held down.
#[derive(Clone, Copy, PartialEq, Eq, Debug, Structural)]
pub struct ArrowKeys {
    pub up: bool,
    pub down: bool,
    pub left: bool,
    pub right: bool,
}

impl ArrowKeys {
    /// The direction the held keys ask for: right and up count 1, left and
    /// down -1, and opposite keys cancel.
    pub open spec fn direction(self) -> InputBuffer {
        InputBuffer {
            x: ((if self.right { 1int } else { 0 }) - (if self.left { 1int } else { 0 })) as i8,
            y: ((if self.up { 1int } else { 0 }) - (if self.down { 1int } else { 0 })) as i8,
        }
    }
}

/// What the buffer holds after a frame: nothing while a menu is open; else the
/// direction of the held keys if they ask for one; else what it held.
pub open spec fn buffered(before: InputBuffer, keys: ArrowKeys, menu_open: bool) -> InputBuffer {
    if menu_open {
        InputBuffer { x: 0, y: 0 }
    } else if !keys.direction().is_idle() {
        keys.direction()
    } else {
        before
    }
}

/// Takes the direction of the held arrow keys into the buffer. While the
/// emoji menu or the chat menu is open the buffer is cleared instead.
pub fn handle_movement_input(
    keys: ArrowKeys,
    input_buffer: &mut InputBuffer,
    emoji_menu_open: bool,
    chat_menu_open: bool,
)
    ensures
        *final(input_buffer) == buffered(*old(input_buffer), keys, emoji_menu_open || chat_menu_open),
{
    if emoji_menu_open || chat_menu_open {
        *input_buffer = InputBuffer::idle();
        return ;
    }
    let mut direction = InputBuffer::idle();
    if keys.up {
        direction.y = direction.y + 1;
    }
    if keys.down {
        direction.y = direction.y - 1;
    }
    if keys.left {
        direction.x = direction.x - 1;
    }
    if keys.right {
        direction.x = direction.x + 1;
    }
    if direction.x != 0 || direction.y != 0 {
        *input_buffer = direction;
    }
}

/// The sign that shows where the buffered direction points: up and down come
/// before right and left, and a dot stands for no direction.
pub open spec fn facing(dir: InputBuffer) -> char {
    if dir.y > 0 {
        '^'
    } else if dir.y < 0 {
        'v'
    } else if dir.x > 0 {
        '>'
    } else if dir.x < 0 {
        '<'
    } else {
        '.'
    }
}

/// The sign that shows where the buffered direction points.
pub fn direction_symbol(input_buffer: &InputBuffer) -> (c: char)
    ensures
        c == facing(*input_buffer),
{
    if input_buffer.y > 0 {
        '^'
    } else if input_buffer.y < 0 {
        'v'
    } else if input_buffer.x > 0 {
        '>'
    } else if input_buffer.x < 0 {
        '<'
    } else {
        '.'
    }
}

/// A bot at `bot` hears a player who stands at the world pixel `(x, y)`.
pub open spec fn hears(bot: BotView, x: int, y: int) -> bool {
    !apart(bot.position.x * TILE_SIZE, bot.position.y * TILE_SIZE, x, y, TALK_RANGE as int)
}

/// `word` is the greeting.
pub open spec fn is_greeting(word: Seq<char>) -> bool {
    word == GREETING@
}

/// `response` is what the bot answers to `word`: its own line to the
/// greeting, a line picked from the pool to anything else.
pub open spec fn answers(bot: BotView, word: Seq<char>, pool: Seq<String>, response: Seq<char>) -> bool {
    if is_greeting(word) {
        response == bot.dialogue
    } else {
        picked_from(pool, response)
    }
}

impl BotView {
    /// The bot after it answered `response`: it stands still for `TALK_TIME`
    /// from now, shows the response, and its chat timer starts over.
    pub open spec fn answered(self, response: Seq<char>) -> BotView {
        BotView {
            talking: self.talking.with_duration(TALK_TIME as nat).reset(),
            chat_text: response,
            chat_timer: self.chat_timer.reset(),
            ..self
        }
    }
}

/// What a word said at the world pixel `(x, y)` makes of a bot: if the bot
/// hears it, the bot answers; else nothing changes.
pub open spec fn talk_frame(
    before: BotView,
    after: BotView,
    word: Seq<char>,
    x: int,
    y: int,
    pool: Seq<String>,
) -> bool {
    if hears(before, x, y) {
        exists|response: Seq<char>|
            answers(before, word, pool, response) && after == #[trigger] before.answered(response)
    } else {
        after == before
    }
}

/// A bot that has just answered takes no step on a frame shorter than
/// `TALK_TIME`: it stays where it is and its move timer does not advance.
/// Answering changes neither its own line nor its anchor.
pub proof fn lemma_answer_suspends(bot: BotView, response: Seq<char>, delta: nat)
    requires
        delta < TALK_TIME,
    ensures
        !bot.answered(response).advanced(delta).is_due(),
        bot.answered(response).advanced(delta).position == bot.position,
        bot.answered(response).advanced(delta).move_timer == bot.move_timer,
        bot.answered(response).dialogue == bot.dialogue,
        bot.answered(response).anchor == bot.anchor,
{
}

impl Bot {
    /// Whether the bot hears a player who stands at the world pixel `(x, y)`.
    pub fn in_talk_range(&self, x: i64, y: i64) -> (r: bool)
        ensures
            r == hears(self@, x as int, y as int),
    {
        let dx: i128 = to_pixels(self.position.x) - x as i128;
        let dy: i128 = to_pixels(self.position.y) - y as i128;
        !beyond(dx, dy, TALK_RANGE as i128)
    }

    /// Makes the bot answer `response`.
    pub fn answer(&mut self, response: String)
        ensures
            final(self)@ == old(self)@.answered(response@),
    {
        timer_set_duration(&mut self.talking.0, TALK_TIME);
        self.talking.0.reset();
        self.chat_text.0 = response;
        self.chat_timer.0.reset();
    }
}

/// Makes every bot that hears the player answer the word the player said at
/// the world pixel `(player_x, player_y)`.
pub fn handle_chat_input(
    word: &str,
    player_x: i64,
    player_y: i64,
    bots: &mut Vec<Bot>,
    bot_dialogues: &BotDialogues,
)
    ensures
        final(bots).len() == old(bots).len(),
        forall|i: int|
            0 <= i < old(bots).len() ==> talk_frame(
                #[trigger] old(bots)@[i]@,
                final(bots)@[i]@,
                word@,
                player_x as int,
                player_y as int,
                bot_dialogues.lines@,
            ),
{
    let greeting: bool = word.to_owned() == GREETING.to_owned();
    let mut i: usize = 0;
    while i < bots.len()
        invariant
            i <= bots.len(),
            bots.len() == old(bots).len(),
            greeting == is_greeting(word@),
            forall|k: int|
                0 <= k < i ==> talk_frame(
                    #[trigger] old(bots)@[k]@,
                    bots@[k]@,
                    word@,
                    player_x as int,
                    player_y as int,
                    bot_dialogues.lines@,
                ),
            forall|k: int| i <= k < bots.len() ==> bots@[k] == old(bots)@[k],
        decreases bots.len() - i,
    {
        if bots[i].in_talk_range(player_x, player_y) {
            let response = if greeting {
                bots[i].dialogue.0.clone()
            } else {
                pick_dialogue(bot_dialogues)
            };
            let ghost said = response@;
            let ghost before = bots@[i as int]@;
            bots[i].answer(response);
            assert(bots@[i as int]@ == before.answered(said));
        }
        i += 1;
    }
}

} // verus!
