//! Drawer rotation, round completion, scoring, and the room aggregate's
//! local transitions.

use doodle_game::ChainState;
use doodle_game::ChatMessage;
use doodle_game::CrossChainMessage;
use doodle_game::DoodleEvent;
use doodle_game::Effect;
use doodle_game::GameRoom;
use doodle_game::GameState;
use doodle_game::LocalContext;
use doodle_game::OpError;
use doodle_game::Operation;
use doodle_game::Player;

fn ctx(chain_id: &str, timestamp: &str) -> LocalContext {
    LocalContext { chain_id: chain_id.to_string(), timestamp: timestamp.to_string() }
}

fn player(chain_id: &str, name: &str) -> Player {
    Player { chain_id: chain_id.to_string(), name: name.to_string(), score: 0, has_guessed: false }
}

fn three_player_room() -> GameRoom {
    let mut room = GameRoom::new("c1".to_string(), "Alice".to_string(), "t0".to_string());
    room.add_player(player("c2", "Bob"));
    room.add_player(player("c3", "Carol"));
    room
}

#[test]
fn new_room_defaults() {
    let room = GameRoom::new("c1".to_string(), "Alice".to_string(), "t0".to_string());
    assert_eq!(room.room_id, "t0");
    assert_eq!(room.host_chain_id, "c1");
    assert_eq!(room.players.len(), 1);
    assert_eq!(room.players[0].name, "Alice");
    assert_eq!(room.players[0].score, 0);
    assert!(!room.players[0].has_guessed);
    assert!(matches!(room.game_state, GameState::WaitingForPlayers));
    assert_eq!(room.current_round, 0);
    assert!(room.current_drawer_index.is_none());
}

#[test]
fn add_player_is_keyed_by_chain() {
    let mut room = GameRoom::new("c1".to_string(), "Alice".to_string(), "t0".to_string());
    room.add_player(player("c2", "Bob"));
    room.add_player(player("c2", "Bobby"));
    assert_eq!(room.players.len(), 2);
    assert_eq!(room.players[1].name, "Bob");
}

#[test]
fn rotation_visits_each_player_once_per_round() {
    let mut room = three_player_room();
    room.start_game(2, 30, "t1".to_string());
    assert!(matches!(room.game_state, GameState::ChoosingDrawer));
    assert_eq!(room.current_round, 1);

    assert_eq!(room.choose_drawer("t2".to_string()), Some(0));
    assert!(!room.has_all_players_drawn_in_round());
    assert_eq!(room.choose_drawer("t3".to_string()), Some(1));
    assert!(!room.has_all_players_drawn_in_round());
    assert_eq!(room.choose_drawer("t4".to_string()), Some(2));
    assert!(room.has_all_players_drawn_in_round());
}

#[test]
fn choose_drawer_resets_guessed_flags_and_word_timestamp() {
    let mut room = three_player_room();
    room.start_game(1, 30, "t1".to_string());
    room.choose_drawer("t2".to_string());
    room.choose_word("t3".to_string());
    room.players[1].has_guessed = true;
    let picked = room.choose_drawer("t4".to_string());
    assert_eq!(picked, Some(1));
    assert!(room.players.iter().all(|p| !p.has_guessed));
    assert!(room.word_chosen_at.is_none());
    assert_eq!(room.drawer_chosen_at, Some("t4".to_string()));
    assert!(matches!(room.game_state, GameState::WaitingForWord));
}

#[test]
fn choose_drawer_on_empty_roster_is_noop() {
    let mut room = GameRoom::new("c1".to_string(), "Alice".to_string(), "t0".to_string());
    room.players = Vec::new();
    assert_eq!(room.choose_drawer("t1".to_string()), None);
    assert!(matches!(room.game_state, GameState::WaitingForPlayers));
}

#[test]
fn advance_to_next_round_clears_chat_and_drawer() {
    let mut room = three_player_room();
    room.start_game(2, 30, "t1".to_string());
    room.choose_drawer("t2".to_string());
    room.add_chat_message(ChatMessage {
        player_name: "Bob".to_string(),
        message: "hi".to_string(),
        is_correct_guess: false,
        points_awarded: 0,
    });
    room.advance_to_next_round("t3".to_string());
    assert_eq!(room.current_round, 2);
    assert!(room.current_drawer_index.is_none());
    assert!(room.chat_messages.is_empty());
    assert!(matches!(room.game_state, GameState::ChoosingDrawer));
}

#[test]
fn advance_past_last_round_ends_game() {
    let mut room = three_player_room();
    room.start_game(1, 30, "t1".to_string());
    room.advance_to_next_round("t2".to_string());
    assert!(matches!(room.game_state, GameState::GameEnded));
}

#[test]
fn award_points_marks_first_match_only() {
    let mut room = three_player_room();
    room.award_points(&"Bob".to_string(), 90);
    assert_eq!(room.players[1].score, 90);
    assert!(room.players[1].has_guessed);
    assert_eq!(room.players[0].score, 0);
    room.award_points(&"Nobody".to_string(), 50);
    assert_eq!(room.players.iter().map(|p| p.score).sum::<u32>(), 90);
}

/// A drawer-side chain: Alice (c1) hosts, Bob (c2) and Carol (c3) joined,
/// round 1 running with Alice drawing and the word chosen.
fn drawer_chain(word: &str) -> ChainState {
    let mut state = ChainState::new();
    let mut room = three_player_room();
    room.start_game(1, 30, "t1".to_string());
    room.choose_drawer("t2".to_string());
    room.choose_word("t3".to_string());
    state.room = Some(room);
    state.current_word = Some(word.to_string());
    state
}

fn guess(state: &mut ChainState, guesser_chain: &str, text: &str, round: u32) -> Vec<Effect> {
    state.execute_message(
        &ctx("c1", "t9"),
        CrossChainMessage::GuessSubmission {
            guesser_chain_id: guesser_chain.to_string(),
            guess: text.to_string(),
            round,
        },
    )
}

#[test]
fn first_correct_guess_scores_100() {
    let mut state = drawer_chain("cat");
    let effects = guess(&mut state, "c2", "cat", 1);
    let room = state.room.as_ref().unwrap();
    assert_eq!(room.players[1].score, 100);
    assert!(room.players[1].has_guessed);
    assert_eq!(room.chat_messages.len(), 1);
    assert_eq!(room.chat_messages[0].message, "[Correct! +100 points]");
    assert!(room.chat_messages[0].is_correct_guess);
    assert_eq!(room.chat_messages[0].points_awarded, 100);
    assert_eq!(effects.len(), 1);
    match &effects[0] {
        Effect::Emit { stream, event } => {
            assert_eq!(stream, "game_events_t0");
            assert!(matches!(event, DoodleEvent::ChatMessage { .. }));
        }
        other => panic!("unexpected effect: {:?}", other),
    }
}

#[test]
fn second_correct_guesser_scores_90() {
    let mut state = drawer_chain("cat");
    guess(&mut state, "c2", "cat", 1);
    guess(&mut state, "c3", "cat", 1);
    let room = state.room.as_ref().unwrap();
    assert_eq!(room.players[1].score, 100);
    assert_eq!(room.players[2].score, 90);
    assert_eq!(room.chat_messages[1].message, "[Correct! +90 points]");
}

#[test]
fn guess_comparison_ignores_case() {
    let mut state = drawer_chain("CAt");
    guess(&mut state, "c2", "caT", 1);
    let room = state.room.as_ref().unwrap();
    assert_eq!(room.players[1].score, 100);
}

#[test]
fn wrong_guess_scores_zero_and_shows_guess_text() {
    let mut state = drawer_chain("cat");
    guess(&mut state, "c2", "dog", 1);
    let room = state.room.as_ref().unwrap();
    assert_eq!(room.players[1].score, 0);
    assert!(!room.players[1].has_guessed);
    assert_eq!(room.chat_messages[0].message, "dog");
    assert!(!room.chat_messages[0].is_correct_guess);
    assert_eq!(room.chat_messages[0].points_awarded, 0);
}

#[test]
fn repeat_guess_by_correct_player_changes_nothing() {
    let mut state = drawer_chain("cat");
    guess(&mut state, "c2", "cat", 1);
    let effects = guess(&mut state, "c2", "cat", 1);
    let room = state.room.as_ref().unwrap();
    assert_eq!(room.players[1].score, 100);
    assert_eq!(room.chat_messages.len(), 1);
    assert!(effects.is_empty());
}

#[test]
fn stale_round_guess_is_dropped() {
    let mut state = drawer_chain("cat");
    let effects = guess(&mut state, "c2", "cat", 7);
    let room = state.room.as_ref().unwrap();
    assert_eq!(room.players[1].score, 0);
    assert!(room.chat_messages.is_empty());
    assert!(effects.is_empty());
}

#[test]
fn scoring_floors_at_10_points() {
    let mut state = ChainState::new();
    let mut room = GameRoom::new("c1".to_string(), "Alice".to_string(), "t0".to_string());
    for i in 2..=12 {
        room.add_player(player(&format!("c{}", i), &format!("P{}", i)));
    }
    room.start_game(1, 30, "t1".to_string());
    room.choose_drawer("t2".to_string());
    room.choose_word("t3".to_string());
    // ten players have already guessed this turn
    for i in 1..=10 {
        room.players[i].has_guessed = true;
    }
    state.room = Some(room);
    state.current_word = Some("cat".to_string());
    guess(&mut state, "c12", "cat", 1);
    let room = state.room.as_ref().unwrap();
    assert_eq!(room.players[11].score, 10);
    assert_eq!(room.chat_messages[0].message, "[Correct! +10 points]");
}

#[test]
fn unknown_guesser_gets_fallback_name() {
    let mut state = drawer_chain("cat");
    guess(&mut state, "c99", "cat", 1);
    let room = state.room.as_ref().unwrap();
    assert_eq!(room.chat_messages[0].player_name, "Player_c99");
    // no roster entry bears the fallback name, so no score changes
    assert!(room.players.iter().all(|p| p.score == 0));
}

#[test]
fn chat_log_caps_at_ten_entries() {
    let mut state = drawer_chain("cat");
    for i in 0..12 {
        guess(&mut state, "c2", &format!("wrong{}", i), 1);
    }
    let room = state.room.as_ref().unwrap();
    assert_eq!(room.chat_messages.len(), 10);
    assert_eq!(room.chat_messages[0].message, "wrong2");
    assert_eq!(room.chat_messages[9].message, "wrong11");
}

#[test]
fn start_game_operation_rejects_non_host() {
    let mut state = ChainState::new();
    let room = GameRoom::new("c1".to_string(), "Alice".to_string(), "t0".to_string());
    state.room = Some(room);
    let r = state.execute_operation(&ctx("c2", "t5"), Operation::StartGame {
        rounds: 2,
        seconds_per_round: 30,
    });
    assert!(matches!(r, Err(OpError::NotHost)));
    assert_eq!(state.room.as_ref().unwrap().current_round, 0);
}

#[test]
fn choose_word_operation_rejects_non_drawer() {
    let mut state = ChainState::new();
    let mut room = three_player_room();
    room.start_game(1, 30, "t1".to_string());
    room.choose_drawer("t2".to_string());
    // the drawer is Alice on chain c1; chain c2 may not choose the word
    state.room = Some(room);
    let r = state.execute_operation(&ctx("c2", "t5"), Operation::ChooseWord {
        word: "cat".to_string(),
    });
    assert!(matches!(r, Err(OpError::NotDrawer)));
    assert!(state.current_word.is_none());
    assert!(state.room.as_ref().unwrap().word_chosen_at.is_none());

    let r2 = state.execute_operation(&ctx("c1", "t6"), Operation::ChooseWord {
        word: "cat".to_string(),
    });
    assert!(r2.is_ok());
    assert_eq!(state.current_word, Some("cat".to_string()));
}

#[test]
fn choose_drawer_operation_rejects_non_host() {
    let mut state = ChainState::new();
    let room = GameRoom::new("c1".to_string(), "Alice".to_string(), "t0".to_string());
    state.room = Some(room);
    let r = state.execute_operation(&ctx("c2", "t5"), Operation::ChooseDrawer);
    assert!(matches!(r, Err(OpError::NotHost)));
    assert!(state.room.is_some());
}

#[test]
fn end_match_rejects_non_host() {
    let mut state = ChainState::new();
    let room = GameRoom::new("c1".to_string(), "Alice".to_string(), "t0".to_string());
    state.room = Some(room);
    let r = state.execute_operation(&ctx("c2", "t5"), Operation::EndMatch);
    assert!(matches!(r, Err(OpError::NotHost)));
    assert!(state.room.is_some());
    assert!(state.archived_rooms.is_empty());
}

#[test]
fn leaderboard_sorts_by_score_descending() {
    let mut state = ChainState::new();
    let mut room = three_player_room();
    room.players[0].score = 40;
    room.players[1].score = 100;
    room.players[2].score = 70;
    state.room = Some(room);
    let board = state.leaderboard();
    assert_eq!(board.len(), 3);
    assert_eq!(board[0].name, "Bob");
    assert_eq!(board[0].score, 100);
    assert_eq!(board[1].name, "Carol");
    assert_eq!(board[1].score, 70);
    assert_eq!(board[2].name, "Alice");
    assert_eq!(board[2].score, 40);
}

#[test]
fn leaderboard_without_room_is_empty() {
    let state = ChainState::new();
    assert!(state.leaderboard().is_empty());
}

#[test]
fn query_projections_report_local_state() {
    let mut state = ChainState::new();
    let mut room = three_player_room();
    room.start_game(2, 45, "t1".to_string());
    room.choose_drawer("t2".to_string());
    room.players[1].score = 90;
    room.players[1].has_guessed = true;
    state.room = Some(room);
    assert_eq!(state.players().len(), 3);
    assert!(matches!(state.game_state(), Some(GameState::WaitingForWord)));
    assert_eq!(state.drawer_name(), Some("Alice".to_string()));
    assert!(state.is_player_drawer(&"Alice".to_string()));
    assert!(!state.is_player_drawer(&"Bob".to_string()));
    assert!(state.player_has_guessed(&"Bob".to_string()));
    assert!(!state.player_has_guessed(&"Carol".to_string()));
    assert_eq!(state.player_score(&"Bob".to_string()), 90);
    assert_eq!(state.player_score(&"Nobody".to_string()), 0);
    let progress = state.game_progress().unwrap();
    assert_eq!(progress.current_round, 1);
    assert_eq!(progress.total_rounds, 2);
    assert_eq!(progress.seconds_per_round, 45);
    assert!(progress.word_chosen_at.is_none());
    let drawer = state.current_drawer().unwrap();
    assert_eq!(drawer.chain_id, "c1");
}
