//! The receiving side of the protocol: directed messages applied on
//! delivery, and broadcast events folded into the local replica. The
//! reducers drop stale or out-of-turn input silently, accept drawing-turn
//! events only from the chain recorded as the current drawer, and absorb
//! re-delivered joins, drawer selections, word choices and chat entries
//! without double effect. On the host chain, accepted drawer events are
//! re-published on the host's own aggregated stream so that every player
//! needs only one subscription.

use vstd::prelude::*;

use crate::events::CrossChainMessage;
use crate::events::DoodleEvent;
use crate::events::Effect;
use crate::events::EffectV;
use crate::events::EventV;
use crate::events::MessageV;
use crate::room::any_guessed_by_name;
use crate::room::chat_dup;
use crate::room::count_guessed;
use crate::room::name_by_chain;
use crate::room::reset_guessed;
use crate::room::spec_add_player;
use crate::room::spec_advance_round;
use crate::room::spec_award_points;
use crate::room::spec_choose_word;
use crate::room::spec_current_drawer;
use crate::room::spec_push_chat_trimmed;
use crate::room::spec_start_game;
use crate::room::spec_remove_player;
use crate::room::ChatMessage;
use crate::room::ChatMessageV;
use crate::room::GameRoom;
use crate::room::GameState;
use crate::room::Player;
use crate::room::PlayerV;
use crate::room::RoomV;
use crate::state::spec_store_archive;
use crate::state::ChainState;
use crate::state::ChainStateV;
use crate::state::CtxV;
use crate::state::LocalContext;
use crate::text::lower_of;
use crate::text::spec_correct_annotation;
use crate::text::spec_fallback_name;
use crate::text::spec_stream_name;
use crate::text::correct_annotation;
use crate::text::fallback_name;
use crate::text::guess_matches_word;
use crate::text::stream_name;
use crate::types::ArchivedRoom;
use crate::types::ArchivedRoomV;

verus! {

/// The points a correct guess earns when `guessed_count` players have
/// already guessed this turn: 100 for the first, 10 fewer for each later
/// one, never below 10.
pub open spec fn guess_points(guessed_count: nat) -> u32 {
    if guessed_count >= 9 {
        10
    } else {
        (100 - 10 * guessed_count) as u32
    }
}

/// Whether the event's origin chain is the one recorded as current drawer.
pub open spec fn from_current_drawer(room: RoomV, origin: Seq<char>) -> bool {
    spec_current_drawer(room) matches Some(d) && d.chain_id == origin
}

/// A join request, handled on the host chain: the player is added (keyed
/// by chain identity), the host subscribes to the player's stream, the
/// full room state travels back to the new player, and the join is
/// broadcast for the players already present.
pub open spec fn spec_join_request(
    s: ChainStateV,
    ctx: CtxV,
    player_chain_id: Seq<char>,
    player_name: Seq<char>,
) -> (ChainStateV, Seq<EffectV>) {
    match s.room {
        None => (s, Seq::empty()),
        Some(room) => {
            let player = PlayerV {
                chain_id: player_chain_id,
                name: player_name,
                score: 0,
                has_guessed: false,
            };
            let r1 = spec_add_player(room, player);
            let stream = spec_stream_name(r1.room_id);
            let subs: Seq<EffectV> = if room.host_chain_id == ctx.chain_id {
                seq![EffectV::Subscribe { chain: player_chain_id, stream: stream }]
            } else {
                Seq::empty()
            };
            (
                ChainStateV { room: Some(r1), ..s },
                subs + seq![
                    EffectV::SendMessage {
                        to: player_chain_id,
                        message: MessageV::InitialStateSync { room_data: r1 },
                    },
                    EffectV::Emit {
                        stream: stream,
                        event: EventV::PlayerJoined { player: player, timestamp: ctx.timestamp },
                    },
                ],
            )
        },
    }
}

/// The one-time state snapshot a new player receives: the replica is
/// installed, and the player subscribes to the host's aggregated stream
/// once, guarded by the recorded subscription marker. A snapshot that
/// breaks the replica invariant is dropped.
pub open spec fn spec_initial_state_sync(s: ChainStateV, ctx: CtxV, room_data: RoomV) -> (
    ChainStateV,
    Seq<EffectV>,
) {
    if !room_data.wf() {
        (s, Seq::empty())
    } else {
        let already = s.subscribed_to_host matches Some(h) && h == room_data.host_chain_id;
        let effs: Seq<EffectV> = if already {
            Seq::empty()
        } else {
            seq![
                EffectV::Subscribe {
                    chain: room_data.host_chain_id,
                    stream: spec_stream_name(room_data.room_id),
                }
            ]
        };
        (
            ChainStateV {
                room: Some(room_data),
                subscribed_to_host: Some(room_data.host_chain_id),
                ..s
            },
            effs,
        )
    }
}

/// A guess, judged on the drawer's chain: stale rounds and repeat guesses
/// by an already-correct player are dropped; otherwise the guess is
/// compared case-insensitively with the secret word, scored, recorded in
/// chat (capped at the 10 most recent entries), and published as one chat
/// event.
pub open spec fn spec_guess_submission(
    s: ChainStateV,
    ctx: CtxV,
    guesser_chain_id: Seq<char>,
    guess: Seq<char>,
    round: u32,
) -> (ChainStateV, Seq<EffectV>) {
    match (s.room, s.current_word) {
        (Some(room), Some(word)) => {
            if room.current_round != round {
                (s, Seq::empty())
            } else {
                let guesser_name = match name_by_chain(room.players, guesser_chain_id) {
                    Some(n) => n,
                    None => spec_fallback_name(guesser_chain_id),
                };
                if any_guessed_by_name(room.players, guesser_name) {
                    (s, Seq::empty())
                } else {
                    let correct = lower_of(word) == lower_of(guess);
                    let points: u32 = if correct {
                        guess_points(count_guessed(room.players))
                    } else {
                        0
                    };
                    let chat = ChatMessageV {
                        player_name: guesser_name,
                        message: if correct {
                            spec_correct_annotation(points)
                        } else {
                            guess
                        },
                        is_correct_guess: correct,
                        points_awarded: points,
                    };
                    let r1 = RoomV {
                        chat_messages: spec_push_chat_trimmed(room.chat_messages, chat),
                        ..room
                    };
                    let r2 = if correct {
                        spec_award_points(r1, guesser_name, points)
                    } else {
                        r1
                    };
                    (
                        ChainStateV { room: Some(r2), ..s },
                        seq![
                            EffectV::Emit {
                                stream: spec_stream_name(room.room_id),
                                event: EventV::ChatMessage { message: chat },
                            }
                        ],
                    )
                }
            }
        },
        _ => (s, Seq::empty()),
    }
}

/// A deletion notice: the enclosed archive is stored once per room
/// identifier, the host stream is unsubscribed if a room was present, and
/// room, secret word and subscription marker clear atomically.
pub open spec fn spec_room_deleted(
    s: ChainStateV,
    archived_room: Option<ArchivedRoomV>,
) -> (ChainStateV, Seq<EffectV>) {
    let archives = match archived_room {
        Some(a) => spec_store_archive(s.archived_rooms, a),
        None => s.archived_rooms,
    };
    let effs: Seq<EffectV> = match s.room {
        Some(room) => seq![
            EffectV::Unsubscribe {
                chain: room.host_chain_id,
                stream: spec_stream_name(room.room_id),
            }
        ],
        None => Seq::empty(),
    };
    (
        ChainStateV {
            room: None,
            current_word: None,
            subscribed_to_host: None,
            archived_rooms: archives,
        },
        effs,
    )
}

/// A player-left notice, handled on the host chain: the host unsubscribes
/// from the leaver's stream, removes them from the roster, and re-aligns
/// the drawer pointer.
pub open spec fn spec_player_left(s: ChainStateV, player_chain_id: Seq<char>) -> (
    ChainStateV,
    Seq<EffectV>,
) {
    match s.room {
        None => (s, Seq::empty()),
        Some(room) => {
            let r1 = spec_remove_player(room, player_chain_id);
            (
                ChainStateV { room: Some(r1), ..s },
                seq![
                    EffectV::Unsubscribe {
                        chain: player_chain_id,
                        stream: spec_stream_name(room.room_id),
                    }
                ],
            )
        },
    }
}

/// One directed message dispatched to its reducer.
pub open spec fn spec_execute_message(s: ChainStateV, ctx: CtxV, m: MessageV) -> (
    ChainStateV,
    Seq<EffectV>,
) {
    match m {
        MessageV::JoinRequest { player_chain_id, player_name } => spec_join_request(
            s,
            ctx,
            player_chain_id,
            player_name,
        ),
        MessageV::InitialStateSync { room_data } => spec_initial_state_sync(s, ctx, room_data),
        MessageV::GuessSubmission { guesser_chain_id, guess, round } => spec_guess_submission(
            s,
            ctx,
            guesser_chain_id,
            guess,
            round,
        ),
        MessageV::RoomDeleted { timestamp, archived_room } => spec_room_deleted(s, archived_room),
        MessageV::PlayerLeft { player_chain_id, player_name, timestamp } => spec_player_left(
            s,
            player_chain_id,
        ),
    }
}

/// One broadcast event folded into the local replica. Events a chain
/// published itself are skipped; word-chosen and chat events are accepted
/// only from the recorded current drawer and, on the host chain, relayed
/// onto the host's own stream. Re-applying the same join, drawer
/// selection, word choice or chat entry is harmless; a round-ended event
/// deliberately advances the round counter each time it is applied.
pub open spec fn spec_apply_event(
    s: ChainStateV,
    ctx: CtxV,
    origin: Seq<char>,
    ev: EventV,
) -> (ChainStateV, Seq<EffectV>) {
    if origin == ctx.chain_id {
        (s, Seq::empty())
    } else {
        match ev {
            EventV::PlayerJoined { player, timestamp } => match s.room {
                None => (s, Seq::empty()),
                Some(room) => (
                    ChainStateV { room: Some(spec_add_player(room, player)), ..s },
                    Seq::empty(),
                ),
            },
            EventV::GameStarted { rounds, seconds_per_round, drawer_index, timestamp, .. } => {
                match s.room {
                    None => (s, Seq::empty()),
                    Some(room) => {
                        let r1 = spec_start_game(room, rounds, seconds_per_round);
                        if 0 <= drawer_index < r1.players.len() {
                            (
                                ChainStateV {
                                    room: Some(
                                        RoomV {
                                            current_drawer_index: Some(drawer_index),
                                            game_state: GameState::WaitingForWord,
                                            drawer_chosen_at: Some(timestamp),
                                            word_chosen_at: None,
                                            ..r1
                                        },
                                    ),
                                    ..s
                                },
                                Seq::empty(),
                            )
                        } else {
                            (s, Seq::empty())
                        }
                    },
                }
            },
            EventV::DrawerChosen { drawer_index, timestamp, .. } => match s.room {
                None => (s, Seq::empty()),
                Some(room) => {
                    if 0 <= drawer_index < room.players.len() {
                        (
                            ChainStateV {
                                room: Some(
                                    RoomV {
                                        current_drawer_index: Some(drawer_index),
                                        game_state: GameState::WaitingForWord,
                                        drawer_chosen_at: Some(timestamp),
                                        word_chosen_at: None,
                                        players: reset_guessed(room.players),
                                        ..room
                                    },
                                ),
                                ..s
                            },
                            Seq::empty(),
                        )
                    } else {
                        (s, Seq::empty())
                    }
                },
            },
            EventV::WordChosen { timestamp } => match s.room {
                None => (s, Seq::empty()),
                Some(room) => {
                    if !from_current_drawer(room, origin) {
                        (s, Seq::empty())
                    } else {
                        let r1 = spec_choose_word(room, timestamp);
                        let relay: Seq<EffectV> = if room.host_chain_id == ctx.chain_id {
                            seq![
                                EffectV::Emit {
                                    stream: spec_stream_name(r1.room_id),
                                    event: EventV::WordChosen { timestamp: timestamp },
                                }
                            ]
                        } else {
                            Seq::empty()
                        };
                        (ChainStateV { room: Some(r1), ..s }, relay)
                    }
                },
            },
            EventV::ChatMessage { message } => match s.room {
                None => (s, Seq::empty()),
                Some(room) => {
                    if !from_current_drawer(room, origin) {
                        (s, Seq::empty())
                    } else {
                        let r2 = spec_merge_chat(room, message);
                        let relay: Seq<EffectV> = if room.host_chain_id == ctx.chain_id {
                            seq![
                                EffectV::Emit {
                                    stream: spec_stream_name(room.room_id),
                                    event: EventV::ChatMessage { message: message },
                                }
                            ]
                        } else {
                            Seq::empty()
                        };
                        (ChainStateV { room: Some(r2), ..s }, relay)
                    }
                },
            },
            EventV::RoundEnded { scores, timestamp } => match s.room {
                None => (s, Seq::empty()),
                Some(room) => (
                    ChainStateV { room: Some(spec_advance_round(room)), ..s },
                    Seq::empty(),
                ),
            },
            EventV::GameEnded { final_scores, timestamp } => match s.room {
                None => (s, Seq::empty()),
                Some(room) => (
                    ChainStateV {
                        room: Some(RoomV { game_state: GameState::GameEnded, ..room }),
                        ..s
                    },
                    Seq::empty(),
                ),
            },
            EventV::MatchEnded { timestamp } => (s, Seq::empty()),
        }
    }
}

/// A chat event folded into the replica: deduplicated by author and text,
/// appended with the log capped at its 10 most recent entries; a new
/// correct-guess entry also marks the guesser and adds their points,
/// exactly once. The dedup looks only at what the capped log still holds:
/// an entry the cap has already evicted would be appended again on
/// re-delivery.
pub open spec fn spec_merge_chat(room: RoomV, m: ChatMessageV) -> RoomV {
    if chat_dup(room.chat_messages, m.player_name, m.message) {
        room
    } else {
        let r1 = RoomV {
            chat_messages: spec_push_chat_trimmed(room.chat_messages, m),
            ..room
        };
        if m.is_correct_guess {
            spec_award_points(r1, m.player_name, m.points_awarded)
        } else {
            r1
        }
    }
}

impl ChainState {
    /// Applies one delivered directed message.
    pub fn execute_message(
        &mut self,
        ctx: &LocalContext,
        message: CrossChainMessage,
    ) -> (effects: Vec<Effect>)
        requires
            old(self)@.wf(),
        ensures
            final(self)@ == spec_execute_message(old(self)@, ctx@, message@).0,
            effects.deep_view() == spec_execute_message(old(self)@, ctx@, message@).1,
            final(self)@.wf(),
    {
        match message {
            CrossChainMessage::JoinRequest { player_chain_id, player_name } => self
                .handle_join_request(ctx, player_chain_id, player_name),
            CrossChainMessage::InitialStateSync { room_data } => self.handle_initial_state_sync(
                ctx,
                room_data,
            ),
            CrossChainMessage::GuessSubmission { guesser_chain_id, guess, round } => self
                .handle_guess_submission(ctx, guesser_chain_id, guess, round),
            CrossChainMessage::RoomDeleted { timestamp: _, archived_room } => self
                .handle_room_deleted(archived_room),
            CrossChainMessage::PlayerLeft { player_chain_id, player_name: _, timestamp: _ } => self
                .handle_player_left(player_chain_id),
        }
    }

    /// Handles a join request (host side).
    fn handle_join_request(
        &mut self,
        ctx: &LocalContext,
        player_chain_id: String,
        player_name: String,
    ) -> (effects: Vec<Effect>)
        requires
            old(self)@.wf(),
        ensures
            final(self)@ == spec_join_request(old(self)@, ctx@, player_chain_id@, player_name@).0,
            effects.deep_view() == spec_join_request(
                old(self)@,
                ctx@,
                player_chain_id@,
                player_name@,
            ).1,
            final(self)@.wf(),
    {
        let ghost pcid_v = player_chain_id@;
        let ghost pname_v = player_name@;
        let mut effects: Vec<Effect> = Vec::new();
        match &mut self.room {
            None => {},
            Some(room) => {
                let player = Player {
                    chain_id: player_chain_id.clone(),
                    name: player_name,
                    score: 0,
                    has_guessed: false,
                };
                let is_host = room.host_chain_id == ctx.chain_id;
                room.add_player(player.clone());
                let stream = stream_name(&room.room_id);
                if is_host {
                    effects.push(
                        Effect::Subscribe { chain: player_chain_id.clone(), stream: stream.clone() },
                    );
                }
                effects.push(
                    Effect::SendMessage {
                        to: player_chain_id,
                        message: CrossChainMessage::InitialStateSync { room_data: room.clone() },
                    },
                );
                effects.push(
                    Effect::Emit {
                        stream,
                        event: DoodleEvent::PlayerJoined {
                            player,
                            timestamp: ctx.timestamp.clone(),
                        },
                    },
                );
            },
        }
        proof {
            assert(final(self)@ =~= spec_join_request(old(self)@, ctx@, pcid_v, pname_v).0);
            assert(effects.deep_view() =~= spec_join_request(old(self)@, ctx@, pcid_v, pname_v).1);
        }
        effects
    }

    /// Handles the one-time state snapshot (player side).
    fn handle_initial_state_sync(
        &mut self,
        ctx: &LocalContext,
        room_data: GameRoom,
    ) -> (effects: Vec<Effect>)
        requires
            old(self)@.wf(),
        ensures
            final(self)@ == spec_initial_state_sync(old(self)@, ctx@, room_data@).0,
            effects.deep_view() == spec_initial_state_sync(old(self)@, ctx@, room_data@).1,
            final(self)@.wf(),
    {
        let ghost room_v = room_data@;
        let mut effects: Vec<Effect> = Vec::new();
        if !room_data.check_wf() {
            proof {
                assert(effects.deep_view() =~= Seq::<EffectV>::empty());
            }
            return effects;
        }
        let already_subscribed = match &self.subscribed_to_host {
            Some(h) => *h == room_data.host_chain_id,
            None => false,
        };
        if !already_subscribed {
            effects.push(
                Effect::Subscribe {
                    chain: room_data.host_chain_id.clone(),
                    stream: stream_name(&room_data.room_id),
                },
            );
        }
        self.subscribed_to_host = Some(room_data.host_chain_id.clone());
        self.room = Some(room_data);
        proof {
            assert(final(self)@ =~= spec_initial_state_sync(old(self)@, ctx@, room_v).0);
            assert(effects.deep_view() =~= spec_initial_state_sync(old(self)@, ctx@, room_v).1);
        }
        effects
    }

    /// Judges a delivered guess (drawer side).
    fn handle_guess_submission(
        &mut self,
        ctx: &LocalContext,
        guesser_chain_id: String,
        guess: String,
        round: u32,
    ) -> (effects: Vec<Effect>)
        requires
            old(self)@.wf(),
        ensures
            final(self)@ == spec_guess_submission(
                old(self)@,
                ctx@,
                guesser_chain_id@,
                guess@,
                round,
            ).0,
            effects.deep_view() == spec_guess_submission(
                old(self)@,
                ctx@,
                guesser_chain_id@,
                guess@,
                round,
            ).1,
            final(self)@.wf(),
    {
        let ghost gcid_v = guesser_chain_id@;
        let ghost guess_v = guess@;
        let mut effects: Vec<Effect> = Vec::new();
        let word = match &self.current_word {
            Some(w) => w.clone(),
            None => {
                proof {
                    assert(effects.deep_view() =~= Seq::<EffectV>::empty());
                }
                return effects;
            },
        };
        match &mut self.room {
            None => {},
            Some(room) => {
                if room.current_round != round {
                    proof {
                        assert(final(self)@ =~= spec_guess_submission(
                            old(self)@,
                            ctx@,
                            gcid_v,
                            guess_v,
                            round,
                        ).0);
                        assert(effects.deep_view() =~= spec_guess_submission(
                            old(self)@,
                            ctx@,
                            gcid_v,
                            guess_v,
                            round,
                        ).1);
                    }
                    return effects;
                }
                let guesser_name = match room.player_name_by_chain(&guesser_chain_id) {
                    Some(n) => n,
                    None => fallback_name(&guesser_chain_id),
                };
                if room.has_guessed_by_name(&guesser_name) {
                    proof {
                        assert(final(self)@ =~= spec_guess_submission(
                            old(self)@,
                            ctx@,
                            gcid_v,
                            guess_v,
                            round,
                        ).0);
                        assert(effects.deep_view() =~= spec_guess_submission(
                            old(self)@,
                            ctx@,
                            gcid_v,
                            guess_v,
                            round,
                        ).1);
                    }
                    return effects;
                }
                let is_correct = guess_matches_word(&word, &guess);
                let guessed_count = room.count_players_guessed();
                let points: u32 = if is_correct {
                    if guessed_count >= 9 {
                        10
                    } else {
                        100 - 10 * (guessed_count as u32)
                    }
                } else {
                    0
                };
                let chat_message = ChatMessage {
                    player_name: guesser_name.clone(),
                    message: if is_correct {
                        correct_annotation(points)
                    } else {
                        guess
                    },
                    is_correct_guess: is_correct,
                    points_awarded: points,
                };
                let stream = stream_name(&room.room_id);
                room.add_chat_message(chat_message.clone());
                if room.chat_messages.len() > 10 {
                    let keep_from = room.chat_messages.len() - 10;
                    let tail = room.chat_messages.split_off(keep_from);
                    room.chat_messages = tail;
                }
                proof {
                    assert(room@.chat_messages =~= spec_push_chat_trimmed(
                        old(self)@.room.unwrap().chat_messages,
                        chat_message@,
                    ));
                }
                if is_correct {
                    room.award_points(&guesser_name, points);
                }
                effects.push(
                    Effect::Emit {
                        stream,
                        event: DoodleEvent::ChatMessage { message: chat_message },
                    },
                );
            },
        }
        proof {
            assert(final(self)@ =~= spec_guess_submission(
                old(self)@,
                ctx@,
                gcid_v,
                guess_v,
                round,
            ).0);
            assert(effects.deep_view() =~= spec_guess_submission(
                old(self)@,
                ctx@,
                gcid_v,
                guess_v,
                round,
            ).1);
        }
        effects
    }

    /// Handles a deletion notice (player side).
    fn handle_room_deleted(
        &mut self,
        archived_room: Option<ArchivedRoom>,
    ) -> (effects: Vec<Effect>)
        requires
            old(self)@.wf(),
        ensures
            final(self)@ == spec_room_deleted(old(self)@, archived_room.deep_view()).0,
            effects.deep_view() == spec_room_deleted(old(self)@, archived_room.deep_view()).1,
            final(self)@.wf(),
    {
        let ghost archived_v = archived_room.deep_view();
        let mut effects: Vec<Effect> = Vec::new();
        match archived_room {
            Some(a) => self.store_archive(a),
            None => {},
        }
        match &self.room {
            Some(room) => {
                effects.push(
                    Effect::Unsubscribe {
                        chain: room.host_chain_id.clone(),
                        stream: stream_name(&room.room_id),
                    },
                );
            },
            None => {},
        }
        self.room = None;
        self.current_word = None;
        self.subscribed_to_host = None;
        proof {
            assert(final(self)@ =~= spec_room_deleted(old(self)@, archived_v).0);
            assert(effects.deep_view() =~= spec_room_deleted(old(self)@, archived_v).1);
        }
        effects
    }

    /// Handles a player-left notice (host side).
    fn handle_player_left(&mut self, player_chain_id: String) -> (effects: Vec<Effect>)
        requires
            old(self)@.wf(),
        ensures
            final(self)@ == spec_player_left(old(self)@, player_chain_id@).0,
            effects.deep_view() == spec_player_left(old(self)@, player_chain_id@).1,
            final(self)@.wf(),
    {
        let ghost pcid_v = player_chain_id@;
        let mut effects: Vec<Effect> = Vec::new();
        match &mut self.room {
            None => {},
            Some(room) => {
                effects.push(
                    Effect::Unsubscribe {
                        chain: player_chain_id.clone(),
                        stream: stream_name(&room.room_id),
                    },
                );
                let _removed = room.remove_player(&player_chain_id);
            },
        }
        proof {
            assert(final(self)@ =~= spec_player_left(old(self)@, pcid_v).0);
            assert(effects.deep_view() =~= spec_player_left(old(self)@, pcid_v).1);
        }
        effects
    }

    /// Folds one broadcast event from the stream of `origin_chain_id` into
    /// the local replica; self-published events are skipped.
    pub fn process_stream_event(
        &mut self,
        ctx: &LocalContext,
        origin_chain_id: &String,
        event: DoodleEvent,
    ) -> (effects: Vec<Effect>)
        requires
            old(self)@.wf(),
        ensures
            final(self)@ == spec_apply_event(old(self)@, ctx@, origin_chain_id@, event@).0,
            effects.deep_view() == spec_apply_event(old(self)@, ctx@, origin_chain_id@, event@).1,
            final(self)@.wf(),
    {
        let ghost ev_v = event@;
        let mut effects: Vec<Effect> = Vec::new();
        if *origin_chain_id == ctx.chain_id {
            proof {
                assert(effects.deep_view() =~= Seq::<EffectV>::empty());
            }
            return effects;
        }
        match event {
            DoodleEvent::PlayerJoined { player, timestamp: _ } => {
                match &mut self.room {
                    None => {},
                    Some(room) => {
                        room.add_player(player);
                    },
                }
            },
            DoodleEvent::GameStarted {
                rounds,
                seconds_per_round,
                drawer_index,
                drawer_name: _,
                timestamp,
            } => {
                match &mut self.room {
                    None => {},
                    Some(room) => {
                        if drawer_index < room.players.len() {
                            room.start_game(rounds, seconds_per_round, timestamp.clone());
                            room.current_drawer_index = Some(drawer_index);
                            room.game_state = GameState::WaitingForWord;
                            room.drawer_chosen_at = Some(timestamp);
                            room.word_chosen_at = None;
                        }
                    },
                }
            },
            DoodleEvent::DrawerChosen {
                drawer_index,
                drawer_name: _,
                timestamp,
                previous_blob_hash: _,
            } => {
                match &mut self.room {
                    None => {},
                    Some(room) => {
                        if drawer_index < room.players.len() {
                            room.current_drawer_index = Some(drawer_index);
                            room.game_state = GameState::WaitingForWord;
                            room.drawer_chosen_at = Some(timestamp);
                            room.word_chosen_at = None;
                            room.reset_guessed_flags();
                        }
                    },
                }
            },
            DoodleEvent::WordChosen { timestamp } => {
                match &mut self.room {
                    None => {},
                    Some(room) => {
                        if is_from_current_drawer(room, origin_chain_id) {
                            room.choose_word(timestamp.clone());
                            if room.host_chain_id == ctx.chain_id {
                                effects.push(
                                    Effect::Emit {
                                        stream: stream_name(&room.room_id),
                                        event: DoodleEvent::WordChosen { timestamp },
                                    },
                                );
                            }
                        }
                    },
                }
            },
            DoodleEvent::ChatMessage { message } => {
                match &mut self.room {
                    None => {},
                    Some(room) => {
                        if is_from_current_drawer(room, origin_chain_id) {
                            if !room.chat_contains(&message.player_name, &message.message) {
                                room.add_chat_message(message.clone());
                                if room.chat_messages.len() > 10 {
                                    let keep_from = room.chat_messages.len() - 10;
                                    let tail = room.chat_messages.split_off(keep_from);
                                    room.chat_messages = tail;
                                }
                                proof {
                                    assert(room@.chat_messages =~= spec_push_chat_trimmed(
                                        old(self)@.room.unwrap().chat_messages,
                                        message@,
                                    ));
                                }
                                if message.is_correct_guess {
                                    room.award_points(
                                        &message.player_name,
                                        message.points_awarded,
                                    );
                                }
                            }
                            if room.host_chain_id == ctx.chain_id {
                                effects.push(
                                    Effect::Emit {
                                        stream: stream_name(&room.room_id),
                                        event: DoodleEvent::ChatMessage { message },
                                    },
                                );
                            }
                        }
                    },
                }
            },
            DoodleEvent::RoundEnded { scores: _, timestamp } => {
                match &mut self.room {
                    None => {},
                    Some(room) => {
                        room.advance_to_next_round(timestamp);
                    },
                }
            },
            DoodleEvent::GameEnded { final_scores: _, timestamp: _ } => {
                match &mut self.room {
                    None => {},
                    Some(room) => {
                        room.game_state = GameState::GameEnded;
                    },
                }
            },
            DoodleEvent::MatchEnded { timestamp: _ } => {},
        }
        proof {
            assert(final(self)@ =~= spec_apply_event(old(self)@, ctx@, origin_chain_id@, ev_v).0);
            assert(effects.deep_view() =~= spec_apply_event(
                old(self)@,
                ctx@,
                origin_chain_id@,
                ev_v,
            ).1);
        }
        effects
    }
}

/// Whether the event origin is the chain of the recorded current drawer.
fn is_from_current_drawer(room: &GameRoom, origin: &String) -> (b: bool)
    ensures
        b == from_current_drawer(room@, origin@),
{
    match room.get_current_drawer() {
        Some(drawer) => drawer.chain_id == *origin,
        None => false,
    }
}

} // verus!
