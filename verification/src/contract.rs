//! Local operations: what a chain does when its own user asks for an
//! action. Every handler is a pure transition on the chain's durable state
//! that returns the effects to hand to the transport; actions reserved for
//! the host or for the current drawer reject other callers with no state
//! change.

use vstd::prelude::*;

use crate::events::CrossChainMessage;
use crate::events::DoodleEvent;
use crate::events::Effect;
use crate::events::EffectV;
use crate::events::EventV;
use crate::events::MessageV;
use crate::events::OpError;
use crate::events::Operation;
use crate::events::OperationV;
use crate::room::next_drawer_index;
use crate::room::reset_guessed;
use crate::room::round_complete;
use crate::room::spec_choose_drawer;
use crate::room::spec_choose_word;
use crate::room::spec_current_drawer;
use crate::room::spec_advance_round;
use crate::room::spec_new_room;
use crate::room::spec_remove_player;
use crate::room::spec_start_game;
use crate::room::GameRoom;
use crate::room::GameState;
use crate::room::name_by_chain;
use crate::room::PlayerV;
use crate::state::spec_store_archive;
use crate::state::ChainState;
use crate::state::ChainStateV;
use crate::state::CtxV;
use crate::state::LocalContext;
use crate::text::is_valid_blob_hash;
use crate::text::check_blob_hash;
use crate::text::spec_stream_name;
use crate::text::stream_name;
use crate::types::ArchivedRoom;
use crate::types::ArchivedRoomV;

verus! {

/// One room-deleted notice per roster entry, in roster order.
pub open spec fn deletion_notices(
    players: Seq<PlayerV>,
    timestamp: Seq<char>,
    archived: ArchivedRoomV,
) -> Seq<EffectV>
    decreases players.len(),
{
    if players.len() == 0 {
        Seq::empty()
    } else {
        let rest = deletion_notices(players.drop_last(), timestamp, archived);
        rest.push(
            EffectV::SendMessage {
                to: players.last().chain_id,
                message: MessageV::RoomDeleted {
                    timestamp: timestamp,
                    archived_room: Some(archived),
                },
            },
        )
    }
}

/// One room-deleted notice per roster entry other than the sender itself,
/// in roster order.
pub open spec fn deletion_notices_except(
    players: Seq<PlayerV>,
    timestamp: Seq<char>,
    archived: ArchivedRoomV,
    me: Seq<char>,
) -> Seq<EffectV>
    decreases players.len(),
{
    if players.len() == 0 {
        Seq::empty()
    } else {
        let rest = deletion_notices_except(players.drop_last(), timestamp, archived, me);
        if players.last().chain_id == me {
            rest
        } else {
            rest.push(
                EffectV::SendMessage {
                    to: players.last().chain_id,
                    message: MessageV::RoomDeleted {
                        timestamp: timestamp,
                        archived_room: Some(archived),
                    },
                },
            )
        }
    }
}

/// One unsubscribe request per roster entry, in roster order.
pub open spec fn unsubscribe_all(players: Seq<PlayerV>, stream: Seq<char>) -> Seq<EffectV>
    decreases players.len(),
{
    if players.len() == 0 {
        Seq::empty()
    } else {
        unsubscribe_all(players.drop_last(), stream).push(
            EffectV::Unsubscribe { chain: players.last().chain_id, stream: stream },
        )
    }
}

/// The score sheet: each roster entry's name and score, in roster order.
pub open spec fn spec_scores(players: Seq<PlayerV>) -> Seq<(Seq<char>, u32)>
    decreases players.len(),
{
    if players.len() == 0 {
        Seq::empty()
    } else {
        spec_scores(players.drop_last()).push((players.last().name, players.last().score))
    }
}

/// Creating a room: the host chain becomes its own first player and
/// subscribes to its own event stream, like any player's stream it will
/// relay from.
pub open spec fn spec_create_room(s: ChainStateV, ctx: CtxV, host_name: Seq<char>) -> (
    ChainStateV,
    Seq<EffectV>,
) {
    let room = spec_new_room(ctx.chain_id, host_name, ctx.timestamp);
    (
        ChainStateV { room: Some(room), ..s },
        seq![
            EffectV::Subscribe { chain: ctx.chain_id, stream: spec_stream_name(room.room_id) }
        ],
    )
}

/// Joining a room: a join request travels to the host; nothing changes
/// locally until the host answers with a state snapshot.
pub open spec fn spec_join_room(
    s: ChainStateV,
    ctx: CtxV,
    host_chain_id: Seq<char>,
    player_name: Seq<char>,
) -> (ChainStateV, Seq<EffectV>) {
    (
        s,
        seq![
            EffectV::SendMessage {
                to: host_chain_id,
                message: MessageV::JoinRequest {
                    player_chain_id: ctx.chain_id,
                    player_name: player_name,
                },
            }
        ],
    )
}

/// Choosing a word, current drawer only: the room enters the drawing
/// phase, the word is stored only locally, and only the timestamp is
/// broadcast. A caller that is not the recorded drawer is rejected with no
/// state change.
pub open spec fn spec_choose_word_op(s: ChainStateV, ctx: CtxV, word: Seq<char>) -> (
    ChainStateV,
    Seq<EffectV>,
    Result<(), OpError>,
) {
    match s.room {
        None => (s, Seq::empty(), Ok(())),
        Some(room) => {
            if !(spec_current_drawer(room) matches Some(d) && d.chain_id == ctx.chain_id) {
                (s, Seq::empty(), Err(OpError::NotDrawer))
            } else {
                let r1 = spec_choose_word(room, ctx.timestamp);
                (
                    ChainStateV { room: Some(r1), current_word: Some(word), ..s },
                    seq![
                        EffectV::Emit {
                            stream: spec_stream_name(r1.room_id),
                            event: EventV::WordChosen { timestamp: ctx.timestamp },
                        }
                    ],
                    Ok(()),
                )
            }
        },
    }
}

/// Guessing: the guess travels as a directed message to the current
/// drawer's chain, tagged with the local round number; the drawer's chain is
/// authoritative. Without a room or a current drawer nothing happens.
pub open spec fn spec_guess_word_op(s: ChainStateV, ctx: CtxV, guess: Seq<char>) -> (
    ChainStateV,
    Seq<EffectV>,
) {
    match s.room {
        None => (s, Seq::empty()),
        Some(room) => match spec_current_drawer(room) {
            None => (s, Seq::empty()),
            Some(drawer) => (
                s,
                seq![
                    EffectV::SendMessage {
                        to: drawer.chain_id,
                        message: MessageV::GuessSubmission {
                            guesser_chain_id: ctx.chain_id,
                            guess: guess,
                            round: room.current_round,
                        },
                    }
                ],
            ),
        },
    }
}

/// Reading a drawing blob: the fetch is requested only for a hash of the
/// accepted shape (64 hexadecimal digits); anything else is ignored.
pub open spec fn spec_read_data_blob(s: ChainStateV, hash: Seq<char>) -> (
    ChainStateV,
    Seq<EffectV>,
) {
    if is_valid_blob_hash(hash) {
        (s, seq![EffectV::ReadBlob { hash: hash }])
    } else {
        (s, Seq::empty())
    }
}

/// Starting a match, host only: the round plan is set, scores and flags
/// reset, and the first drawer of round one is selected and announced in
/// one combined event. Without a room, or with an empty roster, nothing
/// happens; a non-host caller is rejected with no state change.
pub open spec fn spec_start_game_op(
    s: ChainStateV,
    ctx: CtxV,
    rounds: u32,
    seconds_per_round: u32,
) -> (ChainStateV, Seq<EffectV>, Result<(), OpError>) {
    match s.room {
        None => (s, Seq::empty(), Ok(())),
        Some(room) => {
            if room.host_chain_id != ctx.chain_id {
                (s, Seq::empty(), Err(OpError::NotHost))
            } else if room.players.len() == 0 {
                (s, Seq::empty(), Ok(()))
            } else {
                let r1 = spec_start_game(room, rounds, seconds_per_round);
                let r2 = spec_choose_drawer(r1, ctx.timestamp);
                let idx = next_drawer_index(r1.current_drawer_index, r1.players.len() as int);
                (
                    ChainStateV { room: Some(r2), ..s },
                    seq![
                        EffectV::Emit {
                            stream: spec_stream_name(room.room_id),
                            event: EventV::GameStarted {
                                rounds: rounds,
                                seconds_per_round: seconds_per_round,
                                drawer_index: idx,
                                drawer_name: r1.players[idx].name,
                                timestamp: ctx.timestamp,
                            },
                        }
                    ],
                    Ok(()),
                )
            }
        },
    }
}

/// Advancing the rotation, host only. If the round is complete the round
/// counter moves (or the game ends); then the next drawer is selected and
/// announced. A non-host caller is rejected with no state change.
pub open spec fn spec_choose_drawer_op(s: ChainStateV, ctx: CtxV) -> (
    ChainStateV,
    Seq<EffectV>,
    Result<(), OpError>,
) {
    match s.room {
        None => (s, Seq::empty(), Ok(())),
        Some(room) => {
            if room.host_chain_id != ctx.chain_id {
                (s, Seq::empty(), Err(OpError::NotHost))
            } else {
                let stream = spec_stream_name(room.room_id);
                if round_complete(room) {
                    let scores = spec_scores(room.players);
                    let r1 = spec_advance_round(room);
                    if r1.game_state is GameEnded {
                        (
                            ChainStateV { room: Some(r1), ..s },
                            seq![
                                EffectV::Emit {
                                    stream: stream,
                                    event: EventV::GameEnded {
                                        final_scores: scores,
                                        timestamp: ctx.timestamp,
                                    },
                                }
                            ],
                            Ok(()),
                        )
                    } else {
                        let r2 = spec_choose_drawer(r1, ctx.timestamp);
                        let idx = next_drawer_index(
                            r1.current_drawer_index,
                            r1.players.len() as int,
                        );
                        (
                            ChainStateV { room: Some(r2), ..s },
                            seq![
                                EffectV::Emit {
                                    stream: stream,
                                    event: EventV::RoundEnded {
                                        scores: scores,
                                        timestamp: ctx.timestamp,
                                    },
                                },
                                EffectV::Emit {
                                    stream: stream,
                                    event: EventV::DrawerChosen {
                                        drawer_index: idx,
                                        drawer_name: r1.players[idx].name,
                                        timestamp: ctx.timestamp,
                                        previous_blob_hash: None,
                                    },
                                },
                            ],
                            Ok(()),
                        )
                    }
                } else if room.players.len() == 0 {
                    (s, Seq::empty(), Ok(()))
                } else {
                    let r2 = spec_choose_drawer(room, ctx.timestamp);
                    let idx = next_drawer_index(
                        room.current_drawer_index,
                        room.players.len() as int,
                    );
                    (
                        ChainStateV { room: Some(r2), ..s },
                        seq![
                            EffectV::Emit {
                                stream: stream,
                                event: EventV::DrawerChosen {
                                    drawer_index: idx,
                                    drawer_name: room.players[idx].name,
                                    timestamp: ctx.timestamp,
                                    previous_blob_hash: None,
                                },
                            }
                        ],
                        Ok(()),
                    )
                }
            }
        },
    }
}

/// Ending the match, host only: one archive record (at most one per room
/// identifier), a deletion notice to every player before any local
/// teardown, a final event, unsubscription from every player's stream, and
/// only then the local clearing of room and word.
pub open spec fn spec_end_match(s: ChainStateV, ctx: CtxV) -> (
    ChainStateV,
    Seq<EffectV>,
    Result<(), OpError>,
) {
    match s.room {
        None => (s, Seq::empty(), Ok(())),
        Some(room) => {
            if room.host_chain_id != ctx.chain_id {
                (s, Seq::empty(), Err(OpError::NotHost))
            } else {
                let stream = spec_stream_name(room.room_id);
                let archived = ArchivedRoomV {
                    room_id: room.room_id,
                    blob_hashes: room.blob_hashes,
                    timestamp: ctx.timestamp,
                };
                let effs = deletion_notices(room.players, ctx.timestamp, archived) + seq![
                    EffectV::Emit {
                        stream: stream,
                        event: EventV::MatchEnded { timestamp: ctx.timestamp },
                    }
                ] + unsubscribe_all(room.players, stream);
                (
                    ChainStateV {
                        room: None,
                        current_word: None,
                        archived_rooms: spec_store_archive(s.archived_rooms, archived),
                        ..s
                    },
                    effs,
                    Ok(()),
                )
            }
        },
    }
}

/// Leaving the room. The host leaving ends the match: one archive keyed by
/// the room identifier, deletion notices to every other player, local
/// teardown. Another player leaving is removed from the local roster and
/// the host is notified so it can unsubscribe and re-align its own replica.
pub open spec fn spec_leave_room(
    s: ChainStateV,
    ctx: CtxV,
    blob_hashes: Option<Seq<Seq<char>>>,
) -> (ChainStateV, Seq<EffectV>) {
    match s.room {
        None => (s, Seq::empty()),
        Some(room) => {
            if room.host_chain_id == ctx.chain_id {
                let final_hashes = match blob_hashes {
                    Some(h) => if h.len() > 0 {
                        h
                    } else {
                        room.blob_hashes
                    },
                    None => room.blob_hashes,
                };
                let archived = ArchivedRoomV {
                    room_id: room.room_id,
                    blob_hashes: final_hashes,
                    timestamp: ctx.timestamp,
                };
                (
                    ChainStateV {
                        room: None,
                        current_word: None,
                        archived_rooms: spec_store_archive(s.archived_rooms, archived),
                        ..s
                    },
                    deletion_notices_except(room.players, ctx.timestamp, archived, ctx.chain_id),
                )
            } else {
                let r1 = spec_remove_player(room, ctx.chain_id);
                (
                    ChainStateV { room: Some(r1), ..s },
                    seq![
                        EffectV::SendMessage {
                            to: room.host_chain_id,
                            message: MessageV::PlayerLeft {
                                player_chain_id: ctx.chain_id,
                                player_name: name_by_chain(room.players, ctx.chain_id),
                                timestamp: ctx.timestamp,
                            },
                        }
                    ],
                )
            }
        },
    }
}

/// One operation dispatched to its handler.
pub open spec fn spec_execute_operation(s: ChainStateV, ctx: CtxV, op: OperationV) -> (
    ChainStateV,
    Seq<EffectV>,
    Result<(), OpError>,
) {
    match op {
        OperationV::CreateRoom { host_name } => {
            let t = spec_create_room(s, ctx, host_name);
            (t.0, t.1, Ok(()))
        },
        OperationV::JoinRoom { host_chain_id, player_name } => {
            let t = spec_join_room(s, ctx, host_chain_id, player_name);
            (t.0, t.1, Ok(()))
        },
        OperationV::StartGame { rounds, seconds_per_round } => spec_start_game_op(
            s,
            ctx,
            rounds,
            seconds_per_round,
        ),
        OperationV::ChooseDrawer => spec_choose_drawer_op(s, ctx),
        OperationV::ChooseWord { word } => spec_choose_word_op(s, ctx, word),
        OperationV::GuessWord { guess } => {
            let t = spec_guess_word_op(s, ctx, guess);
            (t.0, t.1, Ok(()))
        },
        OperationV::EndMatch => spec_end_match(s, ctx),
        OperationV::LeaveRoom { blob_hashes } => {
            let t = spec_leave_room(s, ctx, blob_hashes);
            (t.0, t.1, Ok(()))
        },
        OperationV::ReadDataBlob { hash } => {
            let t = spec_read_data_blob(s, hash);
            (t.0, t.1, Ok(()))
        },
    }
}

/// The score sheet of the roster as an executable value.
fn scores_sheet(room: &GameRoom) -> (v: Vec<(String, u32)>)
    ensures
        v.deep_view() == spec_scores(room@.players),
{
    let n = room.players.len();
    let mut v: Vec<(String, u32)> = Vec::new();
    let mut i: usize = 0;
    while i < n
        invariant
            0 <= i <= n,
            n == room.players.len(),
            v.deep_view() == spec_scores(room@.players.subrange(0, i as int)),
        decreases n - i,
    {
        let ghost pre = room@.players.subrange(0, i as int);
        v.push((room.players[i].name.clone(), room.players[i].score));
        i += 1;
        proof {
            let cur = room@.players.subrange(0, i as int);
            assert(cur.drop_last() =~= pre);
            assert(v.deep_view() =~= spec_scores(cur));
        }
    }
    proof {
        assert(room@.players.subrange(0, n as int) =~= room@.players);
    }
    v
}

impl ChainState {
    /// Creates a room hosted by this chain, with the host as sole player.
    pub fn create_room(&mut self, ctx: &LocalContext, host_name: String) -> (effects: Vec<
        Effect,
    >)
        ensures
            final(self)@ == spec_create_room(old(self)@, ctx@, host_name@).0,
            effects.deep_view() == spec_create_room(old(self)@, ctx@, host_name@).1,
            old(self)@.wf() ==> final(self)@.wf(),
    {
        let room = GameRoom::new(ctx.chain_id.clone(), host_name, ctx.timestamp.clone());
        let stream = stream_name(&room.room_id);
        self.room = Some(room);
        let mut effects: Vec<Effect> = Vec::new();
        effects.push(Effect::Subscribe { chain: ctx.chain_id.clone(), stream });
        proof {
            assert(final(self)@ =~= spec_create_room(old(self)@, ctx@, host_name@).0);
            assert(effects.deep_view() =~= spec_create_room(old(self)@, ctx@, host_name@).1);
        }
        effects
    }

    /// Requests to join the room hosted by the given chain.
    pub fn join_room(
        &mut self,
        ctx: &LocalContext,
        host_chain_id: String,
        player_name: String,
    ) -> (effects: Vec<Effect>)
        ensures
            final(self)@ == spec_join_room(old(self)@, ctx@, host_chain_id@, player_name@).0,
            effects.deep_view() == spec_join_room(
                old(self)@,
                ctx@,
                host_chain_id@,
                player_name@,
            ).1,
            old(self)@.wf() ==> final(self)@.wf(),
    {
        let ghost host_v = host_chain_id@;
        let ghost name_v = player_name@;
        let mut effects: Vec<Effect> = Vec::new();
        effects.push(
            Effect::SendMessage {
                to: host_chain_id,
                message: CrossChainMessage::JoinRequest {
                    player_chain_id: ctx.chain_id.clone(),
                    player_name,
                },
            },
        );
        proof {
            assert(effects.deep_view() =~= spec_join_room(old(self)@, ctx@, host_v, name_v).1);
        }
        effects
    }

    /// Chooses the word to draw, current drawer only. The word stays on
    /// this chain; peers learn only the timestamp.
    pub fn choose_word(&mut self, ctx: &LocalContext, word: String) -> (r: Result<
        Vec<Effect>,
        OpError,
    >)
        ensures
            final(self)@ == spec_choose_word_op(old(self)@, ctx@, word@).0,
            old(self)@.wf() ==> final(self)@.wf(),
            r matches Ok(effects) ==> spec_choose_word_op(old(self)@, ctx@, word@).2 is Ok
                && effects.deep_view() == spec_choose_word_op(old(self)@, ctx@, word@).1,
            r matches Err(e) ==> spec_choose_word_op(old(self)@, ctx@, word@).2 == Err::<
                (),
                OpError,
            >(e),
    {
        let ghost word_v = word@;
        let mut effects: Vec<Effect> = Vec::new();
        match &mut self.room {
            None => {},
            Some(room) => {
                let is_drawer = match room.get_current_drawer() {
                    Some(drawer) => drawer.chain_id == ctx.chain_id,
                    None => false,
                };
                if !is_drawer {
                    return Err(OpError::NotDrawer);
                }
                room.choose_word(ctx.timestamp.clone());
                let stream = stream_name(&room.room_id);
                effects.push(
                    Effect::Emit {
                        stream,
                        event: DoodleEvent::WordChosen { timestamp: ctx.timestamp.clone() },
                    },
                );
                self.current_word = Some(word);
            },
        }
        proof {
            assert(final(self)@ =~= spec_choose_word_op(old(self)@, ctx@, word_v).0);
            assert(effects.deep_view() =~= spec_choose_word_op(old(self)@, ctx@, word_v).1);
        }
        Ok(effects)
    }

    /// Sends the local user's guess to the current drawer's chain.
    pub fn guess_word(&self, ctx: &LocalContext, guess: String) -> (effects: Vec<Effect>)
        ensures
            effects.deep_view() == spec_guess_word_op(self@, ctx@, guess@).1,
    {
        let ghost guess_v = guess@;
        let mut effects: Vec<Effect> = Vec::new();
        match &self.room {
            None => {},
            Some(room) => {
                match room.get_current_drawer() {
                    None => {},
                    Some(drawer) => {
                        effects.push(
                            Effect::SendMessage {
                                to: drawer.chain_id.clone(),
                                message: CrossChainMessage::GuessSubmission {
                                    guesser_chain_id: ctx.chain_id.clone(),
                                    guess,
                                    round: room.current_round,
                                },
                            },
                        );
                    },
                }
            },
        }
        proof {
            assert(effects.deep_view() =~= spec_guess_word_op(self@, ctx@, guess_v).1);
        }
        effects
    }

    /// Starts the match, host only, and announces the first drawer of
    /// round one.
    pub fn start_game(
        &mut self,
        ctx: &LocalContext,
        rounds: u32,
        seconds_per_round: u32,
    ) -> (r: Result<Vec<Effect>, OpError>)
        requires
            old(self)@.wf(),
        ensures
            final(self)@ == spec_start_game_op(old(self)@, ctx@, rounds, seconds_per_round).0,
            final(self)@.wf(),
            r matches Ok(effects) ==> spec_start_game_op(
                old(self)@,
                ctx@,
                rounds,
                seconds_per_round,
            ).2 is Ok && effects.deep_view() == spec_start_game_op(
                old(self)@,
                ctx@,
                rounds,
                seconds_per_round,
            ).1,
            r matches Err(e) ==> spec_start_game_op(
                old(self)@,
                ctx@,
                rounds,
                seconds_per_round,
            ).2 == Err::<(), OpError>(e),
    {
        let mut effects: Vec<Effect> = Vec::new();
        match &mut self.room {
            None => {},
            Some(room) => {
                if room.host_chain_id != ctx.chain_id {
                    return Err(OpError::NotHost);
                }
                if room.players.len() == 0 {
                    proof {
                        assert(effects.deep_view() =~= Seq::<EffectV>::empty());
                    }
                    return Ok(effects);
                }
                let stream = stream_name(&room.room_id);
                room.start_game(rounds, seconds_per_round, ctx.timestamp.clone());
                let picked = room.choose_drawer(ctx.timestamp.clone());
                match picked {
                    Some(drawer_index) => {
                        proof {
                            let r1 = spec_start_game(
                                old(self)@.room.unwrap(),
                                rounds,
                                seconds_per_round,
                            );
                            let idx = next_drawer_index(
                                r1.current_drawer_index,
                                r1.players.len() as int,
                            );
                            assert(drawer_index as int == idx);
                            assert(room@.players == reset_guessed(r1.players));
                            assert(room@.players[idx] == (PlayerV {
                                has_guessed: false,
                                ..r1.players[idx]
                            }));
                        }
                        let drawer_name = room.players[drawer_index].name.clone();
                        effects.push(
                            Effect::Emit {
                                stream,
                                event: DoodleEvent::GameStarted {
                                    rounds,
                                    seconds_per_round,
                                    drawer_index,
                                    drawer_name,
                                    timestamp: ctx.timestamp.clone(),
                                },
                            },
                        );
                    },
                    None => {
                        proof {
                            assert(false);
                        }
                    },
                }
            },
        }
        proof {
            assert(final(self)@ =~= spec_start_game_op(
                old(self)@,
                ctx@,
                rounds,
                seconds_per_round,
            ).0);
            assert(effects.deep_view() =~= spec_start_game_op(
                old(self)@,
                ctx@,
                rounds,
                seconds_per_round,
            ).1);
        }
        Ok(effects)
    }

    /// Advances the drawer rotation, host only: completes the round when
    /// every player has drawn, ends the game after the last round, and
    /// otherwise announces the next drawer.
    pub fn choose_drawer(&mut self, ctx: &LocalContext) -> (r: Result<Vec<Effect>, OpError>)
        requires
            old(self)@.wf(),
        ensures
            final(self)@ == spec_choose_drawer_op(old(self)@, ctx@).0,
            final(self)@.wf(),
            r matches Ok(effects) ==> spec_choose_drawer_op(old(self)@, ctx@).2 is Ok
                && effects.deep_view() == spec_choose_drawer_op(old(self)@, ctx@).1,
            r matches Err(e) ==> spec_choose_drawer_op(old(self)@, ctx@).2 == Err::<(), OpError>(
                e,
            ),
    {
        let mut effects: Vec<Effect> = Vec::new();
        match &mut self.room {
            None => {
                proof {
                    assert(effects.deep_view() =~= Seq::<EffectV>::empty());
                }
                Ok(effects)
            },
            Some(room) => {
                if room.host_chain_id != ctx.chain_id {
                    return Err(OpError::NotHost);
                }
                let stream = stream_name(&room.room_id);
                let should_advance = room.has_all_players_drawn_in_round();
                if should_advance {
                    let scores = scores_sheet(room);
                    room.advance_to_next_round(ctx.timestamp.clone());
                    if room.game_state == GameState::GameEnded {
                        effects.push(
                            Effect::Emit {
                                stream,
                                event: DoodleEvent::GameEnded {
                                    final_scores: scores,
                                    timestamp: ctx.timestamp.clone(),
                                },
                            },
                        );
                        proof {
                            assert(final(self)@ =~= spec_choose_drawer_op(old(self)@, ctx@).0);
                            assert(effects.deep_view() =~= spec_choose_drawer_op(
                                old(self)@,
                                ctx@,
                            ).1);
                        }
                        return Ok(effects);
                    }
                    effects.push(
                        Effect::Emit {
                            stream: stream.clone(),
                            event: DoodleEvent::RoundEnded {
                                scores,
                                timestamp: ctx.timestamp.clone(),
                            },
                        },
                    );
                } else if room.players.len() == 0 {
                    proof {
                        assert(effects.deep_view() =~= Seq::<EffectV>::empty());
                    }
                    return Ok(effects);
                }
                let ghost r1 = room@;
                let picked = room.choose_drawer(ctx.timestamp.clone());
                match picked {
                    Some(drawer_index) => {
                        proof {
                            let idx = next_drawer_index(
                                r1.current_drawer_index,
                                r1.players.len() as int,
                            );
                            assert(drawer_index as int == idx);
                            assert(room@.players == reset_guessed(r1.players));
                            assert(room@.players[idx] == (PlayerV {
                                has_guessed: false,
                                ..r1.players[idx]
                            }));
                        }
                        let drawer_name = room.players[drawer_index].name.clone();
                        effects.push(
                            Effect::Emit {
                                stream,
                                event: DoodleEvent::DrawerChosen {
                                    drawer_index,
                                    drawer_name,
                                    timestamp: ctx.timestamp.clone(),
                                    previous_blob_hash: None,
                                },
                            },
                        );
                    },
                    None => {
                        proof {
                            assert(false);
                        }
                    },
                }
                proof {
                    assert(final(self)@ =~= spec_choose_drawer_op(old(self)@, ctx@).0);
                    assert(effects.deep_view() =~= spec_choose_drawer_op(old(self)@, ctx@).1);
                }
                Ok(effects)
            },
        }
    }

    /// Ends the match, host only: archives the room once, notifies every
    /// player before tearing anything down, emits the closing event,
    /// unsubscribes from every player, and clears local state last.
    pub fn end_match(&mut self, ctx: &LocalContext) -> (r: Result<Vec<Effect>, OpError>)
        requires
            old(self)@.wf(),
        ensures
            final(self)@ == spec_end_match(old(self)@, ctx@).0,
            final(self)@.wf(),
            r matches Ok(effects) ==> spec_end_match(old(self)@, ctx@).2 is Ok
                && effects.deep_view() == spec_end_match(old(self)@, ctx@).1,
            r matches Err(e) ==> spec_end_match(old(self)@, ctx@).2 == Err::<(), OpError>(e),
    {
        let mut effects: Vec<Effect> = Vec::new();
        let room = match &self.room {
            None => {
                proof {
                    assert(effects.deep_view() =~= Seq::<EffectV>::empty());
                }
                return Ok(effects);
            },
            Some(r) => r.clone(),
        };
        if room.host_chain_id != ctx.chain_id {
            return Err(OpError::NotHost);
        }
        let archived = ArchivedRoom {
            room_id: room.room_id.clone(),
            blob_hashes: room.blob_hashes.clone(),
            timestamp: ctx.timestamp.clone(),
        };
        proof {
            assert(archived@.blob_hashes =~= room@.blob_hashes);
            assert(archived@ =~= (ArchivedRoomV {
                room_id: room@.room_id,
                blob_hashes: room@.blob_hashes,
                timestamp: ctx@.timestamp,
            }));
        }
        let stream = stream_name(&room.room_id);
        let n = room.players.len();
        let mut i: usize = 0;
        while i < n
            invariant
                0 <= i <= n,
                n == room@.players.len(),
                effects.deep_view() == deletion_notices(
                    room@.players.subrange(0, i as int),
                    ctx@.timestamp,
                    archived@,
                ),
            decreases n - i,
        {
            let ghost pre = room@.players.subrange(0, i as int);
            effects.push(
                Effect::SendMessage {
                    to: room.players[i].chain_id.clone(),
                    message: CrossChainMessage::RoomDeleted {
                        timestamp: ctx.timestamp.clone(),
                        archived_room: Some(archived.clone()),
                    },
                },
            );
            i += 1;
            proof {
                let cur = room@.players.subrange(0, i as int);
                assert(cur.drop_last() =~= pre);
                assert(effects.deep_view() =~= deletion_notices(cur, ctx@.timestamp, archived@));
            }
        }
        proof {
            assert(room@.players.subrange(0, n as int) =~= room@.players);
        }
        self.store_archive(archived);
        effects.push(
            Effect::Emit {
                stream: stream.clone(),
                event: DoodleEvent::MatchEnded { timestamp: ctx.timestamp.clone() },
            },
        );
        let ghost effects_head = effects.deep_view();
        proof {
            assert(effects.deep_view() =~= effects_head + unsubscribe_all(
                room@.players.subrange(0, 0),
                stream@,
            ));
        }
        let mut j: usize = 0;
        while j < n
            invariant
                0 <= j <= n,
                n == room@.players.len(),
                stream@ == spec_stream_name(room@.room_id),
                effects.deep_view() == effects_head + unsubscribe_all(
                    room@.players.subrange(0, j as int),
                    stream@,
                ),
            decreases n - j,
        {
            let ghost pre = room@.players.subrange(0, j as int);
            effects.push(
                Effect::Unsubscribe {
                    chain: room.players[j].chain_id.clone(),
                    stream: stream.clone(),
                },
            );
            j += 1;
            proof {
                let cur = room@.players.subrange(0, j as int);
                assert(cur.drop_last() =~= pre);
                assert(cur.last() == room@.players[j - 1]);
                assert(unsubscribe_all(cur, stream@) == unsubscribe_all(pre, stream@).push(
                    EffectV::Unsubscribe {
                        chain: room@.players[j - 1].chain_id,
                        stream: stream@,
                    },
                ));
                assert(effects.deep_view() =~= (effects_head + unsubscribe_all(pre, stream@)).push(
                    EffectV::Unsubscribe {
                        chain: room@.players[j - 1].chain_id,
                        stream: stream@,
                    },
                ));
                assert((effects_head + unsubscribe_all(pre, stream@)).push(
                    EffectV::Unsubscribe {
                        chain: room@.players[j - 1].chain_id,
                        stream: stream@,
                    },
                ) =~= effects_head + unsubscribe_all(cur, stream@));
                assert(effects.deep_view() =~= effects_head + unsubscribe_all(cur, stream@));
            }
        }
        self.room = None;
        self.current_word = None;
        proof {
            assert(room@.players.subrange(0, n as int) =~= room@.players);
            assert(final(self)@ =~= spec_end_match(old(self)@, ctx@).0);
            assert(effects.deep_view() =~= spec_end_match(old(self)@, ctx@).1);
        }
        Ok(effects)
    }

    /// Leaves the room: the host leaving ends the match; another player is
    /// removed locally and notifies the host.
    pub fn leave_room(
        &mut self,
        ctx: &LocalContext,
        blob_hashes: Option<Vec<String>>,
    ) -> (effects: Vec<Effect>)
        requires
            old(self)@.wf(),
        ensures
            final(self)@ == spec_leave_room(old(self)@, ctx@, blob_hashes.deep_view()).0,
            effects.deep_view() == spec_leave_room(old(self)@, ctx@, blob_hashes.deep_view()).1,
            final(self)@.wf(),
    {
        let ghost hashes_v = blob_hashes.deep_view();
        let mut effects: Vec<Effect> = Vec::new();
        let is_host = match &self.room {
            None => {
                proof {
                    assert(effects.deep_view() =~= Seq::<EffectV>::empty());
                }
                return effects;
            },
            Some(room) => room.host_chain_id == ctx.chain_id,
        };
        if is_host {
            let room = match &self.room {
                Some(r) => r.clone(),
                None => {
                    proof {
                        assert(false);
                    }
                    return effects;
                },
            };
            let final_hashes = match blob_hashes {
                Some(h) => {
                    if h.len() > 0 {
                        h
                    } else {
                        room.blob_hashes.clone()
                    }
                },
                None => room.blob_hashes.clone(),
            };
            let archived = ArchivedRoom {
                room_id: room.room_id.clone(),
                blob_hashes: final_hashes,
                timestamp: ctx.timestamp.clone(),
            };
            proof {
                assert(archived@.blob_hashes =~= (match hashes_v {
                    Some(h) => if h.len() > 0 {
                        h
                    } else {
                        room@.blob_hashes
                    },
                    None => room@.blob_hashes,
                }));
            }
            let n = room.players.len();
            let mut i: usize = 0;
            while i < n
                invariant
                    0 <= i <= n,
                    n == room@.players.len(),
                    effects.deep_view() == deletion_notices_except(
                        room@.players.subrange(0, i as int),
                        ctx@.timestamp,
                        archived@,
                        ctx@.chain_id,
                    ),
                decreases n - i,
            {
                let ghost pre = room@.players.subrange(0, i as int);
                if !(room.players[i].chain_id == ctx.chain_id) {
                    effects.push(
                        Effect::SendMessage {
                            to: room.players[i].chain_id.clone(),
                            message: CrossChainMessage::RoomDeleted {
                                timestamp: ctx.timestamp.clone(),
                                archived_room: Some(archived.clone()),
                            },
                        },
                    );
                }
                i += 1;
                proof {
                    let cur = room@.players.subrange(0, i as int);
                    assert(cur.drop_last() =~= pre);
                    assert(effects.deep_view() =~= deletion_notices_except(
                        cur,
                        ctx@.timestamp,
                        archived@,
                        ctx@.chain_id,
                    ));
                }
            }
            self.store_archive(archived);
            self.room = None;
            self.current_word = None;
            proof {
                assert(room@.players.subrange(0, n as int) =~= room@.players);
                assert(final(self)@ =~= spec_leave_room(old(self)@, ctx@, hashes_v).0);
                assert(effects.deep_view() =~= spec_leave_room(old(self)@, ctx@, hashes_v).1);
            }
            effects
        } else {
            match &mut self.room {
                Some(room) => {
                    let player_name = room.player_name_by_chain(&ctx.chain_id);
                    let host = room.host_chain_id.clone();
                    let _removed = room.remove_player(&ctx.chain_id);
                    effects.push(
                        Effect::SendMessage {
                            to: host,
                            message: CrossChainMessage::PlayerLeft {
                                player_chain_id: ctx.chain_id.clone(),
                                player_name,
                                timestamp: ctx.timestamp.clone(),
                            },
                        },
                    );
                },
                None => {
                    proof {
                        assert(false);
                    }
                },
            }
            proof {
                assert(final(self)@ =~= spec_leave_room(old(self)@, ctx@, hashes_v).0);
                assert(effects.deep_view() =~= spec_leave_room(old(self)@, ctx@, hashes_v).1);
            }
            effects
        }
    }

    /// Dispatches one local operation to its handler.
    pub fn execute_operation(&mut self, ctx: &LocalContext, op: Operation) -> (r: Result<
        Vec<Effect>,
        OpError,
    >)
        requires
            old(self)@.wf(),
        ensures
            final(self)@ == spec_execute_operation(old(self)@, ctx@, op@).0,
            final(self)@.wf(),
            r matches Ok(effects) ==> spec_execute_operation(old(self)@, ctx@, op@).2 is Ok
                && effects.deep_view() == spec_execute_operation(old(self)@, ctx@, op@).1,
            r matches Err(e) ==> spec_execute_operation(old(self)@, ctx@, op@).2 == Err::<
                (),
                OpError,
            >(e),
    {
        match op {
            Operation::CreateRoom { host_name } => Ok(self.create_room(ctx, host_name)),
            Operation::JoinRoom { host_chain_id, player_name } => Ok(
                self.join_room(ctx, host_chain_id, player_name),
            ),
            Operation::StartGame { rounds, seconds_per_round } => self.start_game(
                ctx,
                rounds,
                seconds_per_round,
            ),
            Operation::ChooseDrawer => self.choose_drawer(ctx),
            Operation::ChooseWord { word } => self.choose_word(ctx, word),
            Operation::GuessWord { guess } => Ok(self.guess_word(ctx, guess)),
            Operation::EndMatch => self.end_match(ctx),
            Operation::LeaveRoom { blob_hashes } => Ok(self.leave_room(ctx, blob_hashes)),
            Operation::ReadDataBlob { hash } => Ok(self.read_data_blob(hash)),
        }
    }

    /// Requests a stored drawing blob by hash, after checking its shape.
    pub fn read_data_blob(&self, hash: String) -> (effects: Vec<Effect>)
        ensures
            effects.deep_view() == spec_read_data_blob(self@, hash@).1,
    {
        let ghost hash_v = hash@;
        let mut effects: Vec<Effect> = Vec::new();
        if check_blob_hash(&hash) {
            effects.push(Effect::ReadBlob { hash });
        }
        proof {
            assert(effects.deep_view() =~= spec_read_data_blob(self@, hash_v).1);
        }
        effects
    }
}

} // verus!
