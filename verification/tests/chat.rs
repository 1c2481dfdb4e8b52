use bevy::time::TimerMode;
use evolution_origin::components::Bot;
use evolution_origin::resources::BotDialogues;
use evolution_origin::systems::bot::{spawn_single_bot, update_bot_chat};
use evolution_origin::systems::input::handle_chat_input;
use std::time::Duration;

const SECOND: u64 = 1_000_000_000;

fn pool(lines: &[&str]) -> BotDialogues {
    BotDialogues { lines: lines.iter().map(|s| s.to_string()).collect() }
}

fn bot_at(x: i64, y: i64, line: &str) -> Bot {
    spawn_single_bot(x, y, SECOND, line.to_string())
}

#[test]
fn the_greeting_is_answered_with_the_bots_own_line() {
    let mut bots = vec![bot_at(1, 0, "mine"), bot_at(0, 2, "yours")];
    handle_chat_input("Hello", 0, 0, &mut bots, &pool(&["a", "b"]));
    assert_eq!(bots[0].chat_text.0, "mine");
    assert_eq!(bots[1].chat_text.0, "yours");
    assert_eq!(bots[0].dialogue.0, "mine");
}

#[test]
fn another_word_is_answered_from_the_pool() {
    let mut bots = vec![bot_at(1, 0, "mine")];
    for _ in 0..50 {
        handle_chat_input("Help", 0, 0, &mut bots, &pool(&["a", "b"]));
        assert!(bots[0].chat_text.0 == "a" || bots[0].chat_text.0 == "b");
        assert_eq!(bots[0].dialogue.0, "mine");
    }
    handle_chat_input("hello", 0, 0, &mut bots, &pool(&["c"]));
    assert_eq!(bots[0].chat_text.0, "c");
}

#[test]
fn an_empty_pool_answers_with_the_placeholder() {
    let mut bots = vec![bot_at(1, 0, "mine")];
    handle_chat_input("Yes", 0, 0, &mut bots, &pool(&[]));
    assert_eq!(bots[0].chat_text.0, "...");
    handle_chat_input("Hello", 0, 0, &mut bots, &pool(&[]));
    assert_eq!(bots[0].chat_text.0, "mine");
}

#[test]
fn only_bots_within_four_and_a_half_cells_hear() {
    let mut bots = vec![
        bot_at(4, 0, "near"),
        bot_at(5, 0, "far"),
        bot_at(3, 3, "diagonal"),
        bot_at(4, 3, "corner"),
        bot_at(0, -4, "below"),
    ];
    handle_chat_input("Hello", 0, 0, &mut bots, &pool(&["a"]));
    assert_eq!(bots[0].chat_text.0, "near");
    assert_eq!(bots[1].chat_text.0, "");
    assert_eq!(bots[2].chat_text.0, "diagonal");
    assert_eq!(bots[3].chat_text.0, "");
    assert_eq!(bots[4].chat_text.0, "below");
    assert!(!bots[1].talking.0.finished());
    assert_eq!(bots[1].talking.0.duration(), Duration::ZERO);
}

#[test]
fn the_range_is_measured_in_pixels_from_the_player() {
    let mut bots = vec![bot_at(5, 0, "x")];
    handle_chat_input("Hello", 19, 0, &mut bots, &pool(&[]));
    assert_eq!(bots[0].chat_text.0, "");
    handle_chat_input("Hello", 20, 0, &mut bots, &pool(&[]));
    assert_eq!(bots[0].chat_text.0, "x");
    let mut others = vec![bot_at(-3, 3, "y")];
    handle_chat_input("Hello", -11, -24, &mut others, &pool(&[]));
    assert_eq!(others[0].chat_text.0, "");
    handle_chat_input("Hello", -12, -24, &mut others, &pool(&[]));
    assert_eq!(others[0].chat_text.0, "y");
}

#[test]
fn a_bot_that_answers_talks_for_three_seconds() {
    let mut bots = vec![bot_at(1, 1, "mine")];
    assert!(!bots[0].advance(SECOND / 2));
    assert!(bots[0].talking.0.finished());
    handle_chat_input("Hello", 0, 0, &mut bots, &pool(&[]));
    assert_eq!(bots[0].talking.0.duration(), Duration::from_secs(3));
    assert_eq!(bots[0].talking.0.elapsed(), Duration::ZERO);
    assert_eq!(bots[0].talking.0.mode(), TimerMode::Once);
    assert!(!bots[0].talking.0.finished());
    assert_eq!(bots[0].move_timer.0.elapsed(), Duration::from_millis(500));
    assert!(!bots[0].advance(2 * SECOND));
    assert_eq!(bots[0].move_timer.0.elapsed(), Duration::from_millis(500));
    assert!(bots[0].advance(SECOND));
}

#[test]
fn a_new_answer_restarts_the_display_time() {
    let mut bots = vec![bot_at(1, 1, "mine")];
    handle_chat_input("Hello", 0, 0, &mut bots, &pool(&[]));
    update_bot_chat(&mut bots, 2 * SECOND);
    handle_chat_input("No", 0, 0, &mut bots, &pool(&["other"]));
    assert_eq!(bots[0].chat_text.0, "other");
    assert_eq!(bots[0].chat_timer.0.elapsed(), Duration::ZERO);
    update_bot_chat(&mut bots, 2 * SECOND);
    assert_eq!(bots[0].chat_text.0, "other");
    update_bot_chat(&mut bots, SECOND);
    assert_eq!(bots[0].chat_text.0, "");
    handle_chat_input("Hello", 0, 0, &mut bots, &pool(&[]));
    assert_eq!(bots[0].chat_text.0, "mine");
    assert!(!bots[0].chat_timer.0.finished());
}

#[test]
fn in_talk_range_is_the_closed_disc() {
    let bot = bot_at(0, 0, "x");
    assert!(bot.in_talk_range(180, 0));
    assert!(!bot.in_talk_range(181, 0));
    assert!(bot.in_talk_range(-108, 144));
    assert!(!bot.in_talk_range(-109, 144));
    assert!(!bot.in_talk_range(i64::MAX, i64::MIN));
}
