//! Cross-chain behaviour: merge-layer idempotence and filtering, the
//! subscription lifecycle, the archival/deletion protocol, leave
//! re-indexing, blob-hash checking, and a full two-player match.

use doodle_game::ArchivedRoom;
use doodle_game::ChainState;
use doodle_game::ChatMessage;
use doodle_game::CrossChainMessage;
use doodle_game::DoodleEvent;
use doodle_game::Effect;
use doodle_game::GameRoom;
use doodle_game::GameState;
use doodle_game::LocalContext;
use doodle_game::Operation;
use doodle_game::Player;

fn ctx(chain_id: &str, timestamp: &str) -> LocalContext {
    LocalContext { chain_id: chain_id.to_string(), timestamp: timestamp.to_string() }
}

fn player(chain_id: &str, name: &str) -> Player {
    Player { chain_id: chain_id.to_string(), name: name.to_string(), score: 0, has_guessed: false }
}

/// A player-side replica (on chain c2) of a running room hosted by c1 with
/// Alice (c1, drawing), Bob (c2) and Carol (c3).
fn player_chain() -> ChainState {
    let mut state = ChainState::new();
    let mut room = GameRoom::new("c1".to_string(), "Alice".to_string(), "t0".to_string());
    room.add_player(player("c2", "Bob"));
    room.add_player(player("c3", "Carol"));
    room.start_game(2, 30, "t1".to_string());
    room.choose_drawer("t2".to_string());
    state.room = Some(room);
    state.subscribed_to_host = Some("c1".to_string());
    state
}

fn chat(name: &str, text: &str, correct: bool, points: u32) -> ChatMessage {
    ChatMessage {
        player_name: name.to_string(),
        message: text.to_string(),
        is_correct_guess: correct,
        points_awarded: points,
    }
}

#[test]
fn chat_event_applied_twice_counts_once() {
    let mut state = player_chain();
    let event = DoodleEvent::ChatMessage {
        message: chat("Bob", "[Correct! +100 points]", true, 100),
    };
    let c = ctx("c2", "t5");
    let origin = "c1".to_string();
    state.process_stream_event(&c, &origin, event.clone());
    state.process_stream_event(&c, &origin, event);
    let room = state.room.as_ref().unwrap();
    assert_eq!(room.chat_messages.len(), 1);
    assert_eq!(room.players[1].score, 100);
    assert!(room.players[1].has_guessed);
}

#[test]
fn word_chosen_from_non_drawer_is_ignored() {
    let mut state = player_chain();
    let before_state = state.room.as_ref().unwrap().game_state;
    let c = ctx("c2", "t5");
    let origin = "c3".to_string();
    let effects = state.process_stream_event(
        &c,
        &origin,
        DoodleEvent::WordChosen { timestamp: "t6".to_string() },
    );
    let room = state.room.as_ref().unwrap();
    assert_eq!(room.game_state, before_state);
    assert!(room.word_chosen_at.is_none());
    assert!(effects.is_empty());
}

#[test]
fn chat_from_non_drawer_is_ignored() {
    let mut state = player_chain();
    let c = ctx("c2", "t5");
    let origin = "c3".to_string();
    let effects = state.process_stream_event(
        &c,
        &origin,
        DoodleEvent::ChatMessage { message: chat("Carol", "hey", false, 0) },
    );
    let room = state.room.as_ref().unwrap();
    assert!(room.chat_messages.is_empty());
    assert!(effects.is_empty());
}

#[test]
fn word_chosen_from_drawer_enters_drawing_state() {
    let mut state = player_chain();
    let c = ctx("c2", "t5");
    let origin = "c1".to_string();
    let effects = state.process_stream_event(
        &c,
        &origin,
        DoodleEvent::WordChosen { timestamp: "t6".to_string() },
    );
    let room = state.room.as_ref().unwrap();
    assert!(matches!(room.game_state, GameState::Drawing));
    assert_eq!(room.word_chosen_at, Some("t6".to_string()));
    // c2 is not the host, so nothing is relayed
    assert!(effects.is_empty());
}

#[test]
fn self_emitted_events_are_skipped() {
    let mut state = player_chain();
    let c = ctx("c2", "t5");
    let origin = "c2".to_string();
    let effects = state.process_stream_event(
        &c,
        &origin,
        DoodleEvent::RoundEnded { scores: Vec::new(), timestamp: "t6".to_string() },
    );
    let room = state.room.as_ref().unwrap();
    assert_eq!(room.current_round, 1);
    assert!(effects.is_empty());
}

#[test]
fn host_relays_drawer_chat_to_own_stream() {
    // host chain c1, drawer Bob (c2)
    let mut state = ChainState::new();
    let mut room = GameRoom::new("c1".to_string(), "Alice".to_string(), "t0".to_string());
    room.add_player(player("c2", "Bob"));
    room.start_game(1, 30, "t1".to_string());
    room.choose_drawer("t2".to_string());
    room.choose_drawer("t3".to_string());
    assert_eq!(room.current_drawer_index, Some(1));
    state.room = Some(room);
    let c = ctx("c1", "t5");
    let origin = "c2".to_string();
    let effects = state.process_stream_event(
        &c,
        &origin,
        DoodleEvent::ChatMessage { message: chat("Alice", "dog", false, 0) },
    );
    assert_eq!(effects.len(), 1);
    match &effects[0] {
        Effect::Emit { stream, event } => {
            assert_eq!(stream, "game_events_t0");
            match event {
                DoodleEvent::ChatMessage { message } => assert_eq!(message.message, "dog"),
                other => panic!("unexpected relayed event: {:?}", other),
            }
        }
        other => panic!("unexpected effect: {:?}", other),
    }
}

#[test]
fn room_deleted_clears_everything_and_archives_once() {
    let mut state = player_chain();
    state.current_word = Some("cat".to_string());
    let archive = ArchivedRoom {
        room_id: "t0".to_string(),
        blob_hashes: vec!["h1".to_string(), "h2".to_string()],
        timestamp: "t9".to_string(),
    };
    let msg = CrossChainMessage::RoomDeleted {
        timestamp: "t9".to_string(),
        archived_room: Some(archive),
    };
    let c = ctx("c2", "t9");
    let effects = state.execute_message(&c, msg.clone());
    assert!(state.room.is_none());
    assert!(state.current_word.is_none());
    assert!(state.subscribed_to_host.is_none());
    assert_eq!(state.archived_rooms.len(), 1);
    assert_eq!(state.archived_rooms[0].room_id, "t0");
    assert_eq!(state.archived_rooms[0].blob_hashes, vec!["h1".to_string(), "h2".to_string()]);
    assert_eq!(effects.len(), 1);
    assert!(matches!(&effects[0], Effect::Unsubscribe { chain, .. } if chain == "c1"));

    // a re-delivered deletion notice adds nothing
    let effects2 = state.execute_message(&c, msg);
    assert_eq!(state.archived_rooms.len(), 1);
    assert!(effects2.is_empty());
}

#[test]
fn player_left_before_drawer_slides_index_down() {
    // drawer index 3; the player at index 1 leaves; the index becomes 2
    let mut state = ChainState::new();
    let mut room = GameRoom::new("c1".to_string(), "Alice".to_string(), "t0".to_string());
    room.add_player(player("c2", "Bob"));
    room.add_player(player("c3", "Carol"));
    room.add_player(player("c4", "Dave"));
    room.current_drawer_index = Some(3);
    state.room = Some(room);
    let c = ctx("c1", "t5");
    state.execute_message(
        &c,
        CrossChainMessage::PlayerLeft {
            player_chain_id: "c2".to_string(),
            player_name: Some("Bob".to_string()),
            timestamp: "t5".to_string(),
        },
    );
    let room = state.room.as_ref().unwrap();
    assert_eq!(room.players.len(), 3);
    assert_eq!(room.current_drawer_index, Some(2));
    assert_eq!(room.players[2].name, "Dave");
}

#[test]
fn drawer_leaving_resets_selection() {
    let mut state = ChainState::new();
    let mut room = GameRoom::new("c1".to_string(), "Alice".to_string(), "t0".to_string());
    room.add_player(player("c2", "Bob"));
    room.add_player(player("c3", "Carol"));
    room.add_player(player("c4", "Dave"));
    room.current_drawer_index = Some(3);
    room.game_state = GameState::Drawing;
    state.room = Some(room);
    let c = ctx("c1", "t5");
    let effects = state.execute_message(
        &c,
        CrossChainMessage::PlayerLeft {
            player_chain_id: "c4".to_string(),
            player_name: Some("Dave".to_string()),
            timestamp: "t5".to_string(),
        },
    );
    let room = state.room.as_ref().unwrap();
    assert_eq!(room.players.len(), 3);
    assert!(room.current_drawer_index.is_none());
    assert!(matches!(room.game_state, GameState::ChoosingDrawer));
    assert!(matches!(&effects[0], Effect::Unsubscribe { chain, .. } if chain == "c4"));
}

#[test]
fn initial_state_sync_subscribes_once() {
    let mut state = ChainState::new();
    let room = GameRoom::new("c1".to_string(), "Alice".to_string(), "t0".to_string());
    let c = ctx("c2", "t5");
    let effects = state.execute_message(
        &c,
        CrossChainMessage::InitialStateSync { room_data: room.clone() },
    );
    assert_eq!(effects.len(), 1);
    assert!(matches!(
        &effects[0],
        Effect::Subscribe { chain, stream } if chain == "c1" && stream == "game_events_t0"
    ));
    assert_eq!(state.subscribed_to_host, Some("c1".to_string()));

    // a re-delivered snapshot does not subscribe again
    let effects2 = state.execute_message(
        &c,
        CrossChainMessage::InitialStateSync { room_data: room },
    );
    assert!(effects2.is_empty());
    assert!(state.room.is_some());
}

#[test]
fn join_request_adds_player_and_syncs_state() {
    let mut host = ChainState::new();
    host.execute_operation(&ctx("c1", "t0"), Operation::CreateRoom {
        host_name: "Alice".to_string(),
    })
    .unwrap();
    let effects = host.execute_message(
        &ctx("c1", "t1"),
        CrossChainMessage::JoinRequest {
            player_chain_id: "c2".to_string(),
            player_name: "Bob".to_string(),
        },
    );
    let room = host.room.as_ref().unwrap();
    assert_eq!(room.players.len(), 2);
    assert_eq!(effects.len(), 3);
    assert!(matches!(&effects[0], Effect::Subscribe { chain, .. } if chain == "c2"));
    match &effects[1] {
        Effect::SendMessage { to, message } => {
            assert_eq!(to, "c2");
            match message {
                CrossChainMessage::InitialStateSync { room_data } => {
                    assert_eq!(room_data.players.len(), 2);
                }
                other => panic!("unexpected message: {:?}", other),
            }
        }
        other => panic!("unexpected effect: {:?}", other),
    }
    assert!(matches!(
        &effects[2],
        Effect::Emit { event: DoodleEvent::PlayerJoined { .. }, .. }
    ));
}

#[test]
fn merged_chat_log_caps_at_ten_entries() {
    let mut state = player_chain();
    let c = ctx("c2", "t5");
    let origin = "c1".to_string();
    for i in 0..12 {
        state.process_stream_event(
            &c,
            &origin,
            DoodleEvent::ChatMessage { message: chat("Bob", &format!("guess{}", i), false, 0) },
        );
    }
    let room = state.room.as_ref().unwrap();
    assert_eq!(room.chat_messages.len(), 10);
    assert_eq!(room.chat_messages[0].message, "guess2");
    assert_eq!(room.chat_messages[9].message, "guess11");
}

#[test]
fn drawer_chosen_with_out_of_range_index_is_dropped() {
    let mut state = player_chain();
    let c = ctx("c2", "t5");
    let origin = "c1".to_string();
    let effects = state.process_stream_event(
        &c,
        &origin,
        DoodleEvent::DrawerChosen {
            drawer_index: 9,
            drawer_name: "Ghost".to_string(),
            timestamp: "t6".to_string(),
            previous_blob_hash: None,
        },
    );
    let room = state.room.as_ref().unwrap();
    assert_eq!(room.current_drawer_index, Some(0));
    assert!(effects.is_empty());
}

#[test]
fn game_started_with_out_of_range_index_is_dropped() {
    let mut state = player_chain();
    let c = ctx("c2", "t5");
    let origin = "c1".to_string();
    state.process_stream_event(
        &c,
        &origin,
        DoodleEvent::GameStarted {
            rounds: 5,
            seconds_per_round: 60,
            drawer_index: 9,
            drawer_name: "Ghost".to_string(),
            timestamp: "t6".to_string(),
        },
    );
    let room = state.room.as_ref().unwrap();
    assert_eq!(room.total_rounds, 2);
    assert_eq!(room.current_drawer_index, Some(0));
}

#[test]
fn read_data_blob_checks_hash_shape() {
    let state = ChainState::new();
    let good = "0123456789abcdef0123456789ABCDEF0123456789abcdef0123456789abcdef";
    assert_eq!(good.len(), 64);
    let effects = state.read_data_blob(good.to_string());
    assert_eq!(effects.len(), 1);
    assert!(matches!(&effects[0], Effect::ReadBlob { hash } if hash == good));

    let short = "abc123";
    assert!(state.read_data_blob(short.to_string()).is_empty());
    let bad = "z123456789abcdef0123456789ABCDEF0123456789abcdef0123456789abcdef";
    assert!(state.read_data_blob(bad.to_string()).is_empty());
}

#[test]
fn host_leave_room_archives_under_room_id() {
    let mut host = ChainState::new();
    host.execute_operation(&ctx("c1", "t0"), Operation::CreateRoom {
        host_name: "Alice".to_string(),
    })
    .unwrap();
    host.execute_message(
        &ctx("c1", "t1"),
        CrossChainMessage::JoinRequest {
            player_chain_id: "c2".to_string(),
            player_name: "Bob".to_string(),
        },
    );
    let effects = host
        .execute_operation(&ctx("c1", "t2"), Operation::LeaveRoom {
            blob_hashes: Some(vec!["h1".to_string()]),
        })
        .unwrap();
    assert!(host.room.is_none());
    assert!(host.current_word.is_none());
    assert_eq!(host.archived_rooms.len(), 1);
    // the archive is keyed by the room identifier (the creation timestamp),
    // as end-match keys it
    assert_eq!(host.archived_rooms[0].room_id, "t0");
    assert_eq!(host.archived_rooms[0].blob_hashes, vec!["h1".to_string()]);
    // only the other player gets a deletion notice
    assert_eq!(effects.len(), 1);
    assert!(matches!(&effects[0], Effect::SendMessage { to, .. } if to == "c2"));
}

#[test]
fn non_host_leave_room_notifies_host() {
    let mut state = player_chain();
    let effects = state
        .execute_operation(&ctx("c2", "t5"), Operation::LeaveRoom { blob_hashes: None })
        .unwrap();
    let room = state.room.as_ref().unwrap();
    assert_eq!(room.players.len(), 2);
    assert!(room.players.iter().all(|p| p.chain_id != "c2"));
    assert_eq!(effects.len(), 1);
    match &effects[0] {
        Effect::SendMessage { to, message } => {
            assert_eq!(to, "c1");
            match message {
                CrossChainMessage::PlayerLeft { player_chain_id, player_name, .. } => {
                    assert_eq!(player_chain_id, "c2");
                    assert_eq!(player_name, &Some("Bob".to_string()));
                }
                other => panic!("unexpected message: {:?}", other),
            }
        }
        other => panic!("unexpected effect: {:?}", other),
    }
}

/// Delivers every effect a step produced, and whatever the handling of it
/// produces in turn: directed messages go to their target chain, events go
/// to every other chain as a stream update from the emitter.
fn deliver(
    effects: Vec<Effect>,
    origin: &str,
    chains: &mut [(String, &mut ChainState)],
    now: &str,
) {
    let mut queue: Vec<(String, Effect)> =
        effects.into_iter().map(|e| (origin.to_string(), e)).collect();
    while let Some((from, effect)) = queue.pop() {
        match effect {
            Effect::SendMessage { to, message } => {
                for (id, chain) in chains.iter_mut() {
                    if *id == to {
                        let more = chain.execute_message(&ctx(id, now), message.clone());
                        for e in more {
                            queue.push((id.clone(), e));
                        }
                    }
                }
            }
            Effect::Emit { event, .. } => {
                for (id, chain) in chains.iter_mut() {
                    if *id != from {
                        let more =
                            chain.process_stream_event(&ctx(id, now), &from, event.clone());
                        for e in more {
                            queue.push((id.clone(), e));
                        }
                    }
                }
            }
            Effect::Subscribe { .. } | Effect::Unsubscribe { .. } | Effect::ReadBlob { .. } => {}
        }
    }
}

#[test]
fn two_player_match_end_to_end() {
    let mut alice = ChainState::new();
    let mut bob = ChainState::new();

    // Alice hosts a room.
    alice
        .execute_operation(&ctx("c1", "100"), Operation::CreateRoom {
            host_name: "Alice".to_string(),
        })
        .unwrap();
    assert_eq!(alice.room.as_ref().unwrap().room_id, "100");

    // Bob joins: his join request goes to the host, the host adds him,
    // sends the snapshot back and announces the join.
    let effects = bob
        .execute_operation(&ctx("c2", "101"), Operation::JoinRoom {
            host_chain_id: "c1".to_string(),
            player_name: "Bob".to_string(),
        })
        .unwrap();
    {
        let mut chains = [("c1".to_string(), &mut alice), ("c2".to_string(), &mut bob)];
        deliver(effects, "c2", &mut chains, "102");
    }
    assert_eq!(alice.room.as_ref().unwrap().players.len(), 2);
    assert_eq!(bob.room.as_ref().unwrap().players.len(), 2);
    assert_eq!(bob.subscribed_to_host, Some("c1".to_string()));

    // The host starts a 2-round, 30-second game; Alice draws first.
    let effects = alice
        .execute_operation(&ctx("c1", "103"), Operation::StartGame {
            rounds: 2,
            seconds_per_round: 30,
        })
        .unwrap();
    {
        let mut chains = [("c2".to_string(), &mut bob)];
        deliver(effects, "c1", &mut chains, "104");
    }
    assert_eq!(alice.room.as_ref().unwrap().current_drawer_index, Some(0));
    assert_eq!(bob.room.as_ref().unwrap().current_drawer_index, Some(0));
    assert_eq!(bob.room.as_ref().unwrap().current_round, 1);

    // Alice chooses the word "cat"; only the timestamp is broadcast.
    let effects = alice
        .execute_operation(&ctx("c1", "105"), Operation::ChooseWord { word: "cat".to_string() })
        .unwrap();
    assert_eq!(alice.current_word, Some("cat".to_string()));
    {
        let mut chains = [("c2".to_string(), &mut bob)];
        deliver(effects, "c1", &mut chains, "106");
    }
    assert!(bob.current_word.is_none());
    assert!(matches!(bob.room.as_ref().unwrap().game_state, GameState::Drawing));

    // Bob guesses "cat": the guess travels to the drawer's chain and is
    // judged there; Bob scores 100 and the result is published.
    let effects = bob
        .execute_operation(&ctx("c2", "107"), Operation::GuessWord { guess: "cat".to_string() })
        .unwrap();
    assert_eq!(effects.len(), 1);
    let chat_effects = match effects.into_iter().next().unwrap() {
        Effect::SendMessage { to, message } => {
            assert_eq!(to, "c1");
            alice.execute_message(&ctx("c1", "108"), message)
        }
        other => panic!("unexpected effect: {:?}", other),
    };
    {
        let room = alice.room.as_ref().unwrap();
        assert_eq!(room.players[1].score, 100);
        assert_eq!(room.chat_messages[0].message, "[Correct! +100 points]");
    }
    {
        let mut chains = [("c2".to_string(), &mut bob)];
        deliver(chat_effects, "c1", &mut chains, "109");
    }
    assert_eq!(bob.room.as_ref().unwrap().players[1].score, 100);

    // Advancing the drawer: one of two players has drawn, so the round is
    // not complete; Bob becomes the drawer.
    let effects = alice.execute_operation(&ctx("c1", "110"), Operation::ChooseDrawer).unwrap();
    assert_eq!(effects.len(), 1);
    assert!(matches!(
        &effects[0],
        Effect::Emit { event: DoodleEvent::DrawerChosen { drawer_index: 1, .. }, .. }
    ));
    {
        let mut chains = [("c2".to_string(), &mut bob)];
        deliver(effects, "c1", &mut chains, "111");
    }
    assert_eq!(alice.room.as_ref().unwrap().current_round, 1);
    assert_eq!(bob.room.as_ref().unwrap().current_drawer_index, Some(1));

    // Bob draws "dog"; Alice guesses it on her chain; the guess is judged
    // on Bob's chain.
    let effects = bob
        .execute_operation(&ctx("c2", "112"), Operation::ChooseWord { word: "dog".to_string() })
        .unwrap();
    {
        // the host receives the drawer's WordChosen and relays it
        let mut chains = [("c1".to_string(), &mut alice)];
        deliver(effects, "c2", &mut chains, "113");
    }
    assert!(matches!(alice.room.as_ref().unwrap().game_state, GameState::Drawing));

    let effects = alice
        .execute_operation(&ctx("c1", "114"), Operation::GuessWord { guess: "dog".to_string() })
        .unwrap();
    let chat_effects = match effects.into_iter().next().unwrap() {
        Effect::SendMessage { to, message } => {
            assert_eq!(to, "c2");
            bob.execute_message(&ctx("c2", "115"), message)
        }
        other => panic!("unexpected effect: {:?}", other),
    };
    assert_eq!(bob.room.as_ref().unwrap().players[0].score, 100);
    {
        let mut chains = [("c1".to_string(), &mut alice)];
        deliver(chat_effects, "c2", &mut chains, "116");
    }
    assert_eq!(alice.room.as_ref().unwrap().players[0].score, 100);

    // Both have drawn: the next advance completes round 1 and selects the
    // round-2 drawer.
    let effects = alice.execute_operation(&ctx("c1", "117"), Operation::ChooseDrawer).unwrap();
    assert_eq!(effects.len(), 2);
    assert!(matches!(
        &effects[0],
        Effect::Emit { event: DoodleEvent::RoundEnded { .. }, .. }
    ));
    assert!(matches!(
        &effects[1],
        Effect::Emit { event: DoodleEvent::DrawerChosen { drawer_index: 0, .. }, .. }
    ));
    assert_eq!(alice.room.as_ref().unwrap().current_round, 2);

    // Round 2: both draw once more (words and guesses elided; the drawer
    // rotation alone drives completion).
    let effects = alice.execute_operation(&ctx("c1", "118"), Operation::ChooseDrawer).unwrap();
    assert!(matches!(
        &effects[0],
        Effect::Emit { event: DoodleEvent::DrawerChosen { drawer_index: 1, .. }, .. }
    ));

    // Every player has drawn in round 2, the last round: the game ends.
    let effects = alice.execute_operation(&ctx("c1", "119"), Operation::ChooseDrawer).unwrap();
    assert_eq!(effects.len(), 1);
    match &effects[0] {
        Effect::Emit { event: DoodleEvent::GameEnded { final_scores, .. }, .. } => {
            assert_eq!(final_scores.len(), 2);
            assert_eq!(final_scores[0], ("Alice".to_string(), 100));
            assert_eq!(final_scores[1], ("Bob".to_string(), 100));
        }
        other => panic!("unexpected effect: {:?}", other),
    }
    assert!(matches!(alice.room.as_ref().unwrap().game_state, GameState::GameEnded));

    // The host ends the match: every player receives the deletion notice
    // with the archive, and both chains reach empty local state.
    let effects = alice.execute_operation(&ctx("c1", "120"), Operation::EndMatch).unwrap();
    assert!(alice.room.is_none());
    assert!(alice.current_word.is_none());
    assert_eq!(alice.archived_rooms.len(), 1);
    assert_eq!(alice.archived_rooms[0].room_id, "100");
    for effect in effects {
        if let Effect::SendMessage { to, message } = effect {
            if to == "c2" {
                bob.execute_message(&ctx("c2", "121"), message);
            }
        }
    }
    assert!(bob.room.is_none());
    assert!(bob.current_word.is_none());
    assert!(bob.subscribed_to_host.is_none());
    assert_eq!(bob.archived_rooms.len(), 1);
    assert_eq!(bob.archived_rooms[0].room_id, "100");
}
