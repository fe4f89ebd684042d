//! The protocol's laws, stated over the same spec functions the executable
//! transitions are proved against: the drawer rotation visits every player
//! exactly once per round, scoring decreases from 100 by 10 with a floor of
//! 10, the merge layer is idempotent and filters out-of-turn events, and a
//! deletion notice clears local state while archiving a room exactly once.

use vstd::prelude::*;

use crate::events::EffectV;
use crate::events::EventV;
use crate::merge::from_current_drawer;
use crate::merge::guess_points;
use crate::merge::spec_apply_event;
use crate::merge::spec_guess_submission;
use crate::merge::spec_merge_chat;
use crate::merge::spec_room_deleted;
use crate::room::any_guessed_by_name;
use crate::room::chat_dup;
use crate::room::count_guessed;
use crate::room::first_index_by_name;
use crate::room::lemma_first_index_by_chain_range;
use crate::room::lemma_first_index_by_name_found;
use crate::room::lemma_first_index_by_name_range;
use crate::room::sat_add_u32;
use crate::room::spec_push_chat_trimmed;
use crate::room::first_index_by_chain;
use crate::room::name_by_chain;
use crate::room::next_drawer_index;
use crate::room::round_complete;
use crate::room::spec_choose_drawer;
use crate::room::spec_add_player;
use crate::room::spec_award_points;
use crate::room::spec_remove_player;
use crate::room::reset_guessed;
use crate::room::ChatMessageV;
use crate::room::PlayerV;
use crate::room::GameState;
use crate::room::RoomV;
use crate::state::count_archives;
use crate::state::distinct_archive_ids;
use crate::state::has_archive;
use crate::state::ChainStateV;
use crate::state::CtxV;
use crate::text::lower_of;
use crate::text::spec_correct_annotation;
use crate::text::spec_fallback_name;
use crate::text::spec_stream_name;
use crate::types::ArchivedRoomV;

verus! {

/// The room after `k` successive drawer selections, all carrying the same
/// timestamp (the timestamp plays no part in the selection).
pub open spec fn room_after_draws(r: RoomV, timestamp: Seq<char>, k: nat) -> RoomV
    decreases k,
{
    if k == 0 {
        r
    } else {
        spec_choose_drawer(room_after_draws(r, timestamp, (k - 1) as nat), timestamp)
    }
}

/// In a room of `n` players whose round has just begun (no drawer
/// selected), the `k`-th drawer selection picks index `k - 1`: the
/// rotation visits index 0, then 1, and so on, each exactly once, and
/// exactly the `n`-th selection makes the round complete.
pub proof fn lemma_drawer_rotation(r: RoomV, timestamp: Seq<char>, k: nat)
    requires
        r.players.len() >= 1,
        r.current_drawer_index is None,
        1 <= k <= r.players.len(),
    ensures
        room_after_draws(r, timestamp, k).players.len() == r.players.len(),
        room_after_draws(r, timestamp, k).current_drawer_index == Some(k as int - 1),
        round_complete(room_after_draws(r, timestamp, k)) <==> k == r.players.len(),
    decreases k,
{
    let n = r.players.len() as int;
    if k == 1 {
        assert(room_after_draws(r, timestamp, 0) == r);
        assert(next_drawer_index(None, n) == 0);
    } else {
        lemma_drawer_rotation(r, timestamp, (k - 1) as nat);
        let prev = room_after_draws(r, timestamp, (k - 1) as nat);
        assert(prev.current_drawer_index == Some(k as int - 2));
        assert(next_drawer_index(Some(k as int - 2), n) == (k as int - 1) % n);
        vstd::arithmetic::div_mod::lemma_small_mod((k - 1) as nat, n as nat);
        assert((k as int - 1) % n == k as int - 1);
    }
    if k < r.players.len() {
        vstd::arithmetic::div_mod::lemma_small_mod(k, n as nat);
        assert(k as int % n == k as int);
    } else {
        vstd::arithmetic::div_mod::lemma_mod_self_0(n);
        assert(n % n == 0);
    }
}

/// Over one round, no player index is ever selected twice: the `k1`-th and
/// `k2`-th selections pick different indices.
pub proof fn lemma_rotation_visits_each_once(
    r: RoomV,
    timestamp: Seq<char>,
    k1: nat,
    k2: nat,
)
    requires
        r.players.len() >= 1,
        r.current_drawer_index is None,
        1 <= k1 < k2 <= r.players.len(),
    ensures
        room_after_draws(r, timestamp, k1).current_drawer_index != room_after_draws(
            r,
            timestamp,
            k2,
        ).current_drawer_index,
{
    lemma_drawer_rotation(r, timestamp, k1);
    lemma_drawer_rotation(r, timestamp, k2);
}

/// The scoring ladder: the first correct guesser earns 100, each later one
/// 10 fewer, and no correct guess ever earns less than 10.
pub proof fn lemma_scoring_ladder(guessed_count: nat)
    ensures
        guess_points(0) == 100,
        guess_points(1) == 90,
        guessed_count < 9 ==> guess_points(guessed_count + 1) == guess_points(guessed_count)
            - 10,
        guess_points(guessed_count) >= 10,
        guessed_count >= 9 ==> guess_points(guessed_count) == 10,
{
}

/// A second guess by a player who already guessed correctly changes
/// nothing and awards nothing: the submission leaves the state untouched
/// and publishes no event.
pub proof fn lemma_repeat_guess_is_noop(
    s: ChainStateV,
    ctx: CtxV,
    guesser_chain_id: Seq<char>,
    guess: Seq<char>,
    round: u32,
)
    requires
        s.room matches Some(room) && s.current_word is Some && room.current_round == round
            && any_guessed_by_name(
            room.players,
            match name_by_chain(room.players, guesser_chain_id) {
                Some(n) => n,
                None => spec_fallback_name(guesser_chain_id),
            },
        ),
    ensures
        spec_guess_submission(s, ctx, guesser_chain_id, guess, round).0 == s,
        spec_guess_submission(s, ctx, guesser_chain_id, guess, round).1 == Seq::<EffectV>::empty(),
{
}

/// The scoring law for a judged correct guess, in full: with the round
/// current, the guesser on the roster and not yet correct this turn, and
/// the guess matching the word up to case folding, the submission awards
/// exactly 100 points minus 10 per player who had already guessed, never
/// below 10, to the first roster entry bearing the guesser's name, sets
/// that entry's guessed flag, leaves every other entry and the rest of the
/// state untouched, records exactly one annotated chat entry (the log
/// capped at 10), and publishes exactly one chat event on the room's
/// stream. The score-headroom bound keeps the sum inside the machine
/// integer; past it the implementation saturates at the top instead of
/// overflowing.
pub proof fn lemma_correct_guess_scoring(
    s: ChainStateV,
    ctx: CtxV,
    guesser_chain_id: Seq<char>,
    guess: Seq<char>,
    round: u32,
)
    requires
        s.room matches Some(room) && s.current_word matches Some(word) && room.current_round
            == round && name_by_chain(room.players, guesser_chain_id) is Some
            && !any_guessed_by_name(
            room.players,
            name_by_chain(room.players, guesser_chain_id).unwrap(),
        ) && lower_of(word) == lower_of(guess),
        ({
            let room = s.room.unwrap();
            let n = name_by_chain(room.players, guesser_chain_id).unwrap();
            let i = first_index_by_name(room.players, n);
            room.players[i].score + guess_points(count_guessed(room.players)) <= u32::MAX
        }),
    ensures
        ({
            let room = s.room.unwrap();
            let n = name_by_chain(room.players, guesser_chain_id).unwrap();
            let k = count_guessed(room.players);
            let points = guess_points(k);
            let i = first_index_by_name(room.players, n);
            let entry = ChatMessageV {
                player_name: n,
                message: spec_correct_annotation(points),
                is_correct_guess: true,
                points_awarded: points,
            };
            let t = spec_guess_submission(s, ctx, guesser_chain_id, guess, round);
            &&& (k < 9 ==> points == 100 - 10 * k) && (k >= 9 ==> points == 10)
            &&& 0 <= i < room.players.len() && room.players[i].name == n
            &&& t.0.room matches Some(r2) && r2.players.len() == room.players.len()
                && r2.players[i].score == room.players[i].score + points
                && r2.players[i].has_guessed && (forall|j: int|
                0 <= j < room.players.len() && j != i ==> r2.players[j] == room.players[j])
                && r2.chat_messages == spec_push_chat_trimmed(room.chat_messages, entry)
            &&& t.0 == (ChainStateV { room: t.0.room, ..s })
            &&& t.1 == seq![
                EffectV::Emit {
                    stream: spec_stream_name(room.room_id),
                    event: EventV::ChatMessage { message: entry },
                }
            ]
        }),
{
    let room = s.room.unwrap();
    let n = name_by_chain(room.players, guesser_chain_id).unwrap();
    let k = count_guessed(room.players);
    let points = guess_points(k);
    lemma_first_index_by_chain_range(room.players, guesser_chain_id, 0);
    let idx_g = crate::room::first_index_by_chain(room.players, guesser_chain_id);
    assert(room.players[idx_g].name == n);
    lemma_first_index_by_name_found(room.players, n, 0, idx_g);
    lemma_first_index_by_name_range(room.players, n, 0);
    let i = first_index_by_name(room.players, n);
    let entry = ChatMessageV {
        player_name: n,
        message: spec_correct_annotation(points),
        is_correct_guess: true,
        points_awarded: points,
    };
    let t = spec_guess_submission(s, ctx, guesser_chain_id, guess, round);
    let r1 = RoomV { chat_messages: spec_push_chat_trimmed(room.chat_messages, entry), ..room };
    let r2 = spec_award_points(r1, n, points);
    assert(r1.players == room.players);
    assert(first_index_by_name(r1.players, n) == i);
    assert(sat_add_u32(room.players[i].score, points) == room.players[i].score + points);
    assert(t.0 == ChainStateV { room: Some(r2), ..s });
    assert(t.1 =~= seq![
        EffectV::Emit {
            stream: spec_stream_name(room.room_id),
            event: EventV::ChatMessage { message: entry },
        }
    ]);
}

/// Folding the same chat entry into a room twice leaves exactly what one
/// fold leaves: one chat entry, and at most one score increment. (The
/// entry just folded is always among the capped log's 10 most recent, so
/// the second fold sees it; only an entry that 10 later ones have evicted
/// would fold in anew.)
pub proof fn lemma_chat_merge_idempotent(room: RoomV, m: ChatMessageV)
    ensures
        spec_merge_chat(spec_merge_chat(room, m), m) == spec_merge_chat(room, m),
{
    let r = spec_merge_chat(room, m);
    if !chat_dup(room.chat_messages, m.player_name, m.message) {
        let grown = room.chat_messages.push(m);
        let capped = spec_push_chat_trimmed(room.chat_messages, m);
        assert(grown[grown.len() - 1] == m);
        assert(capped[capped.len() - 1] == m);
        assert(chat_dup(capped, m.player_name, m.message));
        assert(r.chat_messages == capped);
        assert(chat_dup(r.chat_messages, m.player_name, m.message));
    }
}

/// Applying the same chat-message event twice ends in the state one
/// application produces.
pub proof fn lemma_chat_event_idempotent(
    s: ChainStateV,
    ctx: CtxV,
    origin: Seq<char>,
    m: ChatMessageV,
)
    ensures
        ({
            let s1 = spec_apply_event(s, ctx, origin, EventV::ChatMessage { message: m }).0;
            spec_apply_event(s1, ctx, origin, EventV::ChatMessage { message: m }).0 == s1
        }),
{
    let ev = EventV::ChatMessage { message: m };
    let s1 = spec_apply_event(s, ctx, origin, ev).0;
    if origin != ctx.chain_id && s.room is Some {
        let room = s.room.unwrap();
        if from_current_drawer(room, origin) {
            let r1 = spec_merge_chat(room, m);
            assert(s1.room == Some(r1));
            assert(from_current_drawer(r1, origin)) by {
                if !chat_dup(room.chat_messages, m.player_name, m.message) && m.is_correct_guess {
                    let pushed = RoomV { chat_messages: room.chat_messages.push(m), ..room };
                    let i = crate::room::first_index_by_name(pushed.players, m.player_name);
                    crate::room::lemma_first_index_by_name_range(pushed.players, m.player_name, 0);
                    if i != -1 {
                        let c = room.current_drawer_index.unwrap();
                        assert(r1.players[c].chain_id == room.players[c].chain_id);
                    }
                }
            }
            lemma_chat_merge_idempotent(room, m);
            assert(spec_apply_event(s1, ctx, origin, ev).0 =~= s1);
        }
    }
}

/// A re-delivered player-joined event adds nobody: adding a player is
/// keyed by chain identity, so the second application finds the chain
/// already on the roster.
pub proof fn lemma_player_joined_idempotent(
    s: ChainStateV,
    ctx: CtxV,
    origin: Seq<char>,
    p: PlayerV,
    timestamp: Seq<char>,
)
    ensures
        ({
            let ev = EventV::PlayerJoined { player: p, timestamp: timestamp };
            let s1 = spec_apply_event(s, ctx, origin, ev).0;
            spec_apply_event(s1, ctx, origin, ev).0 == s1
        }),
{
    let ev = EventV::PlayerJoined { player: p, timestamp: timestamp };
    let s1 = spec_apply_event(s, ctx, origin, ev).0;
    if origin != ctx.chain_id && s.room is Some {
        let room = s.room.unwrap();
        let r1 = spec_add_player(room, p);
        if !room.has_player_chain(p.chain_id) {
            assert(r1.players[r1.players.len() - 1] == p);
            assert(r1.has_player_chain(p.chain_id));
        }
        assert(spec_add_player(r1, p) == r1);
        assert(spec_apply_event(s1, ctx, origin, ev).0 =~= s1);
    }
}

/// A re-delivered drawer-chosen event is harmless: the second application
/// overwrites the same fields with the same values and clears flags that
/// are already clear.
pub proof fn lemma_drawer_chosen_idempotent(
    s: ChainStateV,
    ctx: CtxV,
    origin: Seq<char>,
    drawer_index: int,
    drawer_name: Seq<char>,
    timestamp: Seq<char>,
)
    ensures
        ({
            let ev = EventV::DrawerChosen {
                drawer_index: drawer_index,
                drawer_name: drawer_name,
                timestamp: timestamp,
                previous_blob_hash: None,
            };
            let s1 = spec_apply_event(s, ctx, origin, ev).0;
            spec_apply_event(s1, ctx, origin, ev).0 == s1
        }),
{
    let ev = EventV::DrawerChosen {
        drawer_index: drawer_index,
        drawer_name: drawer_name,
        timestamp: timestamp,
        previous_blob_hash: None,
    };
    let s1 = spec_apply_event(s, ctx, origin, ev).0;
    if origin != ctx.chain_id && s.room is Some {
        let room = s.room.unwrap();
        if 0 <= drawer_index < room.players.len() {
            let r1 = s1.room.unwrap();
            assert(reset_guessed(r1.players) =~= r1.players);
            assert(spec_apply_event(s1, ctx, origin, ev).0.room.unwrap() =~= r1);
            assert(spec_apply_event(s1, ctx, origin, ev).0 =~= s1);
        }
    }
}

/// A re-delivered word-chosen event leaves the state one delivery leaves:
/// the drawer filter still passes (the drawer is unchanged) and the same
/// timestamp and phase are written again.
pub proof fn lemma_word_chosen_idempotent(
    s: ChainStateV,
    ctx: CtxV,
    origin: Seq<char>,
    timestamp: Seq<char>,
)
    ensures
        ({
            let ev = EventV::WordChosen { timestamp: timestamp };
            let s1 = spec_apply_event(s, ctx, origin, ev).0;
            spec_apply_event(s1, ctx, origin, ev).0 == s1
        }),
{
    let ev = EventV::WordChosen { timestamp: timestamp };
    let s1 = spec_apply_event(s, ctx, origin, ev).0;
    if origin != ctx.chain_id && s.room is Some {
        let room = s.room.unwrap();
        if from_current_drawer(room, origin) {
            assert(spec_apply_event(s1, ctx, origin, ev).0 =~= s1);
        }
    }
}

/// A re-delivered game-ended event changes nothing: the replica is already
/// marked ended.
pub proof fn lemma_game_ended_idempotent(
    s: ChainStateV,
    ctx: CtxV,
    origin: Seq<char>,
    final_scores: Seq<(Seq<char>, u32)>,
    timestamp: Seq<char>,
)
    ensures
        ({
            let ev = EventV::GameEnded { final_scores: final_scores, timestamp: timestamp };
            let s1 = spec_apply_event(s, ctx, origin, ev).0;
            spec_apply_event(s1, ctx, origin, ev).0 == s1
        }),
{
    let ev = EventV::GameEnded { final_scores: final_scores, timestamp: timestamp };
    let s1 = spec_apply_event(s, ctx, origin, ev).0;
    if origin != ctx.chain_id && s.room is Some {
        assert(spec_apply_event(s1, ctx, origin, ev).0 =~= s1);
    }
}

/// A word-chosen or chat event whose origin is not the recorded current
/// drawer never changes local state and is never relayed.
pub proof fn lemma_non_drawer_event_ignored(
    s: ChainStateV,
    ctx: CtxV,
    origin: Seq<char>,
    ev: EventV,
)
    requires
        origin != ctx.chain_id,
        s.room matches Some(room) && !from_current_drawer(room, origin),
        ev is WordChosen || ev is ChatMessage,
    ensures
        spec_apply_event(s, ctx, origin, ev).0 == s,
        spec_apply_event(s, ctx, origin, ev).1 == Seq::<EffectV>::empty(),
{
}

/// An archive identifier occurs in the list as often as `count_archives`
/// says; presence and a positive count coincide.
pub proof fn lemma_count_archives_has(archives: Seq<ArchivedRoomV>, room_id: Seq<char>)
    ensures
        has_archive(archives, room_id) <==> count_archives(archives, room_id) > 0,
    decreases archives.len(),
{
    if archives.len() > 0 {
        lemma_count_archives_has(archives.drop_last(), room_id);
        if has_archive(archives, room_id) && archives.last().room_id != room_id {
            let i = choose|i: int|
                0 <= i < archives.len() && archives[i].room_id == room_id;
            assert(archives.drop_last()[i] == archives[i]);
            assert(has_archive(archives.drop_last(), room_id));
        }
        if has_archive(archives.drop_last(), room_id) {
            let i = choose|i: int|
                0 <= i < archives.len() - 1 && archives.drop_last()[i].room_id == room_id;
            assert(archives[i].room_id == room_id);
        }
    }
}

/// With unique identifiers, no identifier is archived more than once.
pub proof fn lemma_count_archives_unique(archives: Seq<ArchivedRoomV>, room_id: Seq<char>)
    requires
        distinct_archive_ids(archives),
    ensures
        count_archives(archives, room_id) <= 1,
    decreases archives.len(),
{
    if archives.len() > 0 {
        let head = archives.drop_last();
        assert(distinct_archive_ids(head)) by {
            assert(forall|i: int, j: int|
                0 <= i < j < head.len() ==> head[i] == archives[i] && head[j] == archives[j]);
        }
        lemma_count_archives_unique(head, room_id);
        if archives.last().room_id == room_id && count_archives(head, room_id) > 0 {
            lemma_count_archives_has(head, room_id);
            let i = choose|i: int| 0 <= i < head.len() && head[i].room_id == room_id;
            assert(archives[i].room_id == archives[archives.len() - 1].room_id);
            assert(false);
        }
    }
}

/// After a deletion notice carrying an archive, the local room, secret
/// word and subscription marker are all cleared, the archive list holds
/// exactly one record for that room identifier, and a duplicate notice
/// changes nothing further.
pub proof fn lemma_room_deleted_clears_state(s: ChainStateV, a: ArchivedRoomV)
    requires
        s.wf(),
    ensures
        ({
            let s1 = spec_room_deleted(s, Some(a)).0;
            &&& s1.room is None
            &&& s1.current_word is None
            &&& s1.subscribed_to_host is None
            &&& count_archives(s1.archived_rooms, a.room_id) == 1
            &&& spec_room_deleted(s1, Some(a)).0 == s1
        }),
{
    let s1 = spec_room_deleted(s, Some(a)).0;
    lemma_count_archives_has(s.archived_rooms, a.room_id);
    if has_archive(s.archived_rooms, a.room_id) {
        lemma_count_archives_unique(s.archived_rooms, a.room_id);
    } else {
        let grown = s.archived_rooms.push(a);
        assert(grown.drop_last() =~= s.archived_rooms);
        assert(count_archives(grown, a.room_id) == count_archives(s.archived_rooms, a.room_id)
            + 1);
    }
    lemma_count_archives_has(s1.archived_rooms, a.room_id);
    assert(spec_room_deleted(s1, Some(a)).0 =~= s1);
}

/// Leave-reindexing: when the player at a position before the drawer
/// leaves, the drawer index slides down by one; when the drawer leaves,
/// the selection resets to choosing a drawer with no index recorded; when
/// a player after the drawer leaves, the index stays.
pub proof fn lemma_leave_reindexing(r: RoomV, chain: Seq<char>)
    requires
        r.wf(),
        r.current_drawer_index is Some,
        first_index_by_chain(r.players, chain) != -1,
    ensures
        ({
            let idx = first_index_by_chain(r.players, chain);
            let c = r.current_drawer_index.unwrap();
            let r1 = spec_remove_player(r, chain);
            &&& c == idx ==> r1.current_drawer_index is None && r1.game_state
                == GameState::ChoosingDrawer
            &&& c > idx ==> r1.current_drawer_index == Some(c - 1)
            &&& c < idx ==> r1.current_drawer_index == Some(c)
        }),
{
}

} // verus!
