//! The room aggregate: players, chat, round bookkeeping, and the pure
//! transitions of the room state machine. Every executable transition is
//! specified against a mathematical view (`RoomV`) so that the merge layer
//! and the laws can reason about replicas abstractly.

use vstd::prelude::*;

verus! {

/// Lifecycle states of a game room.
#[derive(Debug, Clone, Copy, PartialEq, Eq, Structural)]
pub enum GameState {
    WaitingForPlayers,
    GameStarted,
    ChoosingDrawer,
    WaitingForWord,
    Drawing,
    RoundEnded,
    GameEnded,
}

/// One participant, identified by the chain it plays from.
#[derive(Debug)]
pub struct Player {
    pub chain_id: String,
    pub name: String,
    pub score: u32,
    pub has_guessed: bool,
}

/// Mathematical view of a `Player`.
#[verifier::ext_equal]
pub ghost struct PlayerV {
    pub chain_id: Seq<char>,
    pub name: Seq<char>,
    pub score: u32,
    pub has_guessed: bool,
}

impl View for Player {
    type V = PlayerV;

    open spec fn view(&self) -> PlayerV {
        PlayerV {
            chain_id: self.chain_id@,
            name: self.name@,
            score: self.score,
            has_guessed: self.has_guessed,
        }
    }
}

impl DeepView for Player {
    type V = PlayerV;

    open spec fn deep_view(&self) -> PlayerV {
        self.view()
    }
}

impl Clone for Player {
    fn clone(&self) -> (res: Self)
        ensures
            res == self,
    {
        Player {
            chain_id: self.chain_id.clone(),
            name: self.name.clone(),
            score: self.score,
            has_guessed: self.has_guessed,
        }
    }
}

/// One chat entry: a guess, or the annotation recorded for a correct guess.
#[derive(Debug)]
pub struct ChatMessage {
    pub player_name: String,
    pub message: String,
    pub is_correct_guess: bool,
    pub points_awarded: u32,
}

/// Mathematical view of a `ChatMessage`.
#[verifier::ext_equal]
pub ghost struct ChatMessageV {
    pub player_name: Seq<char>,
    pub message: Seq<char>,
    pub is_correct_guess: bool,
    pub points_awarded: u32,
}

impl View for ChatMessage {
    type V = ChatMessageV;

    open spec fn view(&self) -> ChatMessageV {
        ChatMessageV {
            player_name: self.player_name@,
            message: self.message@,
            is_correct_guess: self.is_correct_guess,
            points_awarded: self.points_awarded,
        }
    }
}

impl DeepView for ChatMessage {
    type V = ChatMessageV;

    open spec fn deep_view(&self) -> ChatMessageV {
        self.view()
    }
}

impl Clone for ChatMessage {
    fn clone(&self) -> (res: Self)
        ensures
            res == self,
    {
        ChatMessage {
            player_name: self.player_name.clone(),
            message: self.message.clone(),
            is_correct_guess: self.is_correct_guess,
            points_awarded: self.points_awarded,
        }
    }
}

/// One game room as a chain sees it locally.
#[derive(Debug)]
pub struct GameRoom {
    pub room_id: String,
    pub host_chain_id: String,
    pub players: Vec<Player>,
    pub game_state: GameState,
    pub current_round: u32,
    pub total_rounds: u32,
    pub seconds_per_round: u32,
    pub current_drawer_index: Option<usize>,
    pub word_chosen_at: Option<String>,
    pub chat_messages: Vec<ChatMessage>,
    pub drawer_chosen_at: Option<String>,
    pub blob_hashes: Vec<String>,
}

/// Mathematical view of a `GameRoom`.
#[verifier::ext_equal]
pub ghost struct RoomV {
    pub room_id: Seq<char>,
    pub host_chain_id: Seq<char>,
    pub players: Seq<PlayerV>,
    pub game_state: GameState,
    pub current_round: u32,
    pub total_rounds: u32,
    pub seconds_per_round: u32,
    pub current_drawer_index: Option<int>,
    pub word_chosen_at: Option<Seq<char>>,
    pub chat_messages: Seq<ChatMessageV>,
    pub drawer_chosen_at: Option<Seq<char>>,
    pub blob_hashes: Seq<Seq<char>>,
}

impl View for GameRoom {
    type V = RoomV;

    open spec fn view(&self) -> RoomV {
        RoomV {
            room_id: self.room_id@,
            host_chain_id: self.host_chain_id@,
            players: self.players.deep_view(),
            game_state: self.game_state,
            current_round: self.current_round,
            total_rounds: self.total_rounds,
            seconds_per_round: self.seconds_per_round,
            current_drawer_index: match self.current_drawer_index {
                Some(i) => Some(i as int),
                None => None,
            },
            word_chosen_at: self.word_chosen_at.deep_view(),
            chat_messages: self.chat_messages.deep_view(),
            drawer_chosen_at: self.drawer_chosen_at.deep_view(),
            blob_hashes: self.blob_hashes.deep_view(),
        }
    }
}

impl DeepView for GameRoom {
    type V = RoomV;

    open spec fn deep_view(&self) -> RoomV {
        self.view()
    }
}

impl Clone for GameRoom {
    fn clone(&self) -> (res: Self)
        ensures
            res@ == self@,
    {
        let res = GameRoom {
            room_id: self.room_id.clone(),
            host_chain_id: self.host_chain_id.clone(),
            players: self.players.clone(),
            game_state: self.game_state,
            current_round: self.current_round,
            total_rounds: self.total_rounds,
            seconds_per_round: self.seconds_per_round,
            current_drawer_index: self.current_drawer_index,
            word_chosen_at: self.word_chosen_at.clone(),
            chat_messages: self.chat_messages.clone(),
            drawer_chosen_at: self.drawer_chosen_at.clone(),
            blob_hashes: self.blob_hashes.clone(),
        };
        proof {
            assert(res.players.deep_view() =~= self.players.deep_view());
            assert(res.chat_messages.deep_view() =~= self.chat_messages.deep_view());
            assert(res.blob_hashes.deep_view() =~= self.blob_hashes.deep_view());
            assert(res@ =~= self@);
        }
        res
    }
}

/// Every roster entry plays from a different chain: one player per chain
/// identity per room.
pub open spec fn distinct_chains(players: Seq<PlayerV>) -> bool {
    forall|i: int, j: int|
        0 <= i < j < players.len() ==> players[i].chain_id != players[j].chain_id
}

impl RoomV {
    /// The structural invariant of a replica: a recorded drawer index always
    /// points inside the roster, never dangles, and chain identities on the
    /// roster are unique.
    pub open spec fn wf(self) -> bool {
        &&& self.current_drawer_index matches Some(i) ==> 0 <= i < self.players.len()
        &&& distinct_chains(self.players)
    }

    /// Whether some roster entry plays from the given chain.
    pub open spec fn has_player_chain(self, chain: Seq<char>) -> bool {
        exists|i: int| 0 <= i < self.players.len() && self.players[i].chain_id == chain
    }
}

/// The roster with every has-guessed flag cleared (start of a drawing turn).
pub open spec fn reset_guessed(players: Seq<PlayerV>) -> Seq<PlayerV> {
    players.map_values(|p: PlayerV| PlayerV { has_guessed: false, ..p })
}

/// The roster with every score zeroed and every has-guessed flag cleared
/// (start of a match).
pub open spec fn reset_scores(players: Seq<PlayerV>) -> Seq<PlayerV> {
    players.map_values(|p: PlayerV| PlayerV { score: 0, has_guessed: false, ..p })
}

/// A fresh room: the host is its first player, round counters at zero,
/// waiting for players. The room identifier is the creation timestamp.
pub open spec fn spec_new_room(
    host_chain_id: Seq<char>,
    host_name: Seq<char>,
    timestamp: Seq<char>,
) -> RoomV {
    RoomV {
        room_id: timestamp,
        host_chain_id: host_chain_id,
        players: seq![
            PlayerV { chain_id: host_chain_id, name: host_name, score: 0, has_guessed: false }
        ],
        game_state: GameState::WaitingForPlayers,
        current_round: 0,
        total_rounds: 0,
        seconds_per_round: 0,
        current_drawer_index: None,
        word_chosen_at: None,
        chat_messages: Seq::empty(),
        drawer_chosen_at: None,
        blob_hashes: Seq::empty(),
    }
}

/// Adding a player is keyed by chain identity: a chain already on the
/// roster is not added again.
pub open spec fn spec_add_player(r: RoomV, p: PlayerV) -> RoomV {
    if r.has_player_chain(p.chain_id) {
        r
    } else {
        RoomV { players: r.players.push(p), ..r }
    }
}

/// The roster after a game start: every score zeroed, every flag cleared,
/// round one, choosing the first drawer.
pub open spec fn spec_start_game(r: RoomV, rounds: u32, seconds_per_round: u32) -> RoomV {
    RoomV {
        total_rounds: rounds,
        seconds_per_round: seconds_per_round,
        current_round: 1,
        game_state: GameState::ChoosingDrawer,
        players: reset_scores(r.players),
        ..r
    }
}

/// The index the rotation picks next: the first call of a round picks 0,
/// every later call the cyclic successor of the previous drawer.
pub open spec fn next_drawer_index(cur: Option<int>, n: int) -> int
    recommends
        n >= 1,
{
    match cur {
        None => 0,
        Some(c) => (c + 1) % n,
    }
}

/// Drawer selection: picks the next index cyclically, clears the word
/// timestamp, records the drawer timestamp, and resets every guessed flag.
/// On an empty roster the room is left unchanged.
pub open spec fn spec_choose_drawer(r: RoomV, timestamp: Seq<char>) -> RoomV {
    if r.players.len() == 0 {
        r
    } else {
        RoomV {
            current_drawer_index: Some(next_drawer_index(r.current_drawer_index, r.players.len() as int)),
            game_state: GameState::WaitingForWord,
            word_chosen_at: None,
            drawer_chosen_at: Some(timestamp),
            players: reset_guessed(r.players),
            ..r
        }
    }
}

/// Word selection: records the word timestamp and enters the drawing phase.
/// The word itself never touches the room; it stays on the drawer's chain.
pub open spec fn spec_choose_word(r: RoomV, timestamp: Seq<char>) -> RoomV {
    RoomV { word_chosen_at: Some(timestamp), game_state: GameState::Drawing, ..r }
}

/// Round advance: while rounds remain, the counter moves up, the drawer
/// pointer and word timestamp clear, and the chat log empties; after the
/// last round the game ends.
pub open spec fn spec_advance_round(r: RoomV) -> RoomV {
    if r.current_round < r.total_rounds {
        RoomV {
            current_round: (r.current_round + 1) as u32,
            game_state: GameState::ChoosingDrawer,
            current_drawer_index: None,
            word_chosen_at: None,
            chat_messages: Seq::empty(),
            ..r
        }
    } else {
        RoomV { game_state: GameState::GameEnded, ..r }
    }
}

/// A round is complete when choosing the next drawer would wrap back to
/// index 0: every player has drawn once since the round started.
pub open spec fn round_complete(r: RoomV) -> bool {
    &&& r.players.len() > 0
    &&& r.current_drawer_index matches Some(c) && (c + 1) % (r.players.len() as int) == 0
}

/// The current drawer, if the recorded index points inside the roster.
pub open spec fn spec_current_drawer(r: RoomV) -> Option<PlayerV> {
    match r.current_drawer_index {
        Some(i) => if 0 <= i < r.players.len() {
            Some(r.players[i])
        } else {
            None
        },
        None => None,
    }
}

/// The first roster index whose entry bears the given name, searching from
/// position `i`; `-1` if none does.
pub open spec fn first_index_by_name_from(players: Seq<PlayerV>, name: Seq<char>, i: int) -> int
    decreases players.len() - i,
{
    if i < 0 || i >= players.len() {
        -1
    } else if players[i].name == name {
        i
    } else {
        first_index_by_name_from(players, name, i + 1)
    }
}

/// The first roster index whose entry bears the given name; `-1` if none.
pub open spec fn first_index_by_name(players: Seq<PlayerV>, name: Seq<char>) -> int {
    first_index_by_name_from(players, name, 0)
}

/// The first roster index whose entry plays from the given chain, searching
/// from position `i`; `-1` if none does.
pub open spec fn first_index_by_chain_from(players: Seq<PlayerV>, chain: Seq<char>, i: int) -> int
    decreases players.len() - i,
{
    if i < 0 || i >= players.len() {
        -1
    } else if players[i].chain_id == chain {
        i
    } else {
        first_index_by_chain_from(players, chain, i + 1)
    }
}

/// The first roster index whose entry plays from the given chain; `-1` if
/// none does.
pub open spec fn first_index_by_chain(players: Seq<PlayerV>, chain: Seq<char>) -> int {
    first_index_by_chain_from(players, chain, 0)
}

/// Unsigned addition that stops at the top of the type instead of wrapping.
pub open spec fn sat_add_u32(a: u32, b: u32) -> u32 {
    if a + b > u32::MAX {
        u32::MAX
    } else {
        (a + b) as u32
    }
}

/// Scoring a correct guess: the first player whose entry bears the given
/// name has the points added to their score and their guessed flag set.
/// An unknown name changes nothing.
pub open spec fn spec_award_points(r: RoomV, name: Seq<char>, points: u32) -> RoomV {
    let i = first_index_by_name(r.players, name);
    if i == -1 {
        r
    } else {
        let p = r.players[i];
        RoomV {
            players: r.players.update(
                i,
                PlayerV { score: sat_add_u32(p.score, points), has_guessed: true, ..p },
            ),
            ..r
        }
    }
}

/// Removal of the player of a chain, with the drawer pointer re-aligned:
/// if the drawer itself left, selection resets to choosing a drawer; if a
/// player before the drawer left, the index slides down by one.
pub open spec fn spec_remove_player(r: RoomV, chain: Seq<char>) -> RoomV {
    let idx = first_index_by_chain(r.players, chain);
    if idx == -1 {
        r
    } else {
        let players2 = r.players.remove(idx);
        match r.current_drawer_index {
            None => RoomV { players: players2, ..r },
            Some(c) => if c == idx {
                RoomV {
                    players: players2,
                    current_drawer_index: None,
                    game_state: GameState::ChoosingDrawer,
                    word_chosen_at: None,
                    drawer_chosen_at: None,
                    ..r
                }
            } else if c > idx {
                RoomV { players: players2, current_drawer_index: Some(c - 1), ..r }
            } else {
                RoomV { players: players2, ..r }
            },
        }
    }
}

/// The display name of the first roster entry playing from the given
/// chain, if any.
pub open spec fn name_by_chain(players: Seq<PlayerV>, chain: Seq<char>) -> Option<Seq<char>> {
    let i = first_index_by_chain(players, chain);
    if i == -1 {
        None
    } else {
        Some(players[i].name)
    }
}

/// Whether the chat log holds an entry with the given author and text.
pub open spec fn chat_dup(chat: Seq<ChatMessageV>, name: Seq<char>, text: Seq<char>) -> bool {
    exists|i: int|
        0 <= i < chat.len() && chat[i].player_name == name && chat[i].message == text
}

/// A chat log with the entry appended and the log capped at its 10 most
/// recent entries.
pub open spec fn spec_push_chat_trimmed(
    chat: Seq<ChatMessageV>,
    m: ChatMessageV,
) -> Seq<ChatMessageV> {
    let grown = chat.push(m);
    if grown.len() > 10 {
        grown.subrange(grown.len() - 10, grown.len() as int)
    } else {
        grown
    }
}

/// Whether some roster entry bears the given name and has already guessed.
pub open spec fn any_guessed_by_name(players: Seq<PlayerV>, name: Seq<char>) -> bool {
    exists|i: int| 0 <= i < players.len() && players[i].name == name && players[i].has_guessed
}

/// How many players have already guessed correctly this drawing turn.
pub open spec fn count_guessed(players: Seq<PlayerV>) -> nat
    decreases players.len(),
{
    if players.len() == 0 {
        0
    } else {
        count_guessed(players.drop_last()) + if players.last().has_guessed {
            1nat
        } else {
            0nat
        }
    }
}

/// The name search yields `-1` or an in-range index bearing the name.
pub proof fn lemma_first_index_by_name_range(players: Seq<PlayerV>, name: Seq<char>, i: int)
    requires
        0 <= i <= players.len(),
    ensures
        first_index_by_name_from(players, name, i) == -1 || (i <= first_index_by_name_from(
            players,
            name,
            i,
        ) < players.len() && players[first_index_by_name_from(players, name, i)].name == name),
    decreases players.len() - i,
{
    if i < players.len() && players[i].name != name {
        lemma_first_index_by_name_range(players, name, i + 1);
    }
}

/// If some entry at or after `i` bears the name, the search from `i` finds
/// one.
pub proof fn lemma_first_index_by_name_found(
    players: Seq<PlayerV>,
    name: Seq<char>,
    i: int,
    w: int,
)
    requires
        0 <= i <= w < players.len(),
        players[w].name == name,
    ensures
        first_index_by_name_from(players, name, i) != -1,
    decreases w - i,
{
    if players[i].name != name {
        lemma_first_index_by_name_found(players, name, i + 1, w);
    }
}

/// The chain search yields `-1` or an in-range index playing from the
/// chain.
pub proof fn lemma_first_index_by_chain_range(players: Seq<PlayerV>, chain: Seq<char>, i: int)
    requires
        0 <= i <= players.len(),
    ensures
        first_index_by_chain_from(players, chain, i) == -1 || (i <= first_index_by_chain_from(
            players,
            chain,
            i,
        ) < players.len() && players[first_index_by_chain_from(players, chain, i)].chain_id
            == chain),
    decreases players.len() - i,
{
    if i < players.len() && players[i].chain_id != chain {
        lemma_first_index_by_chain_range(players, chain, i + 1);
    }
}

/// If no entry in `[0, i)` bears the name, the search result from the start
/// is the one from `i`.
pub proof fn lemma_first_index_by_name_from(players: Seq<PlayerV>, name: Seq<char>, i: int)
    requires
        0 <= i <= players.len(),
        forall|j: int| 0 <= j < i ==> players[j].name != name,
    ensures
        first_index_by_name_from(players, name, 0) == first_index_by_name_from(players, name, i),
    decreases i,
{
    if i > 0 {
        lemma_first_index_by_name_from(players, name, i - 1);
    }
}

/// If no entry in `[0, i)` plays from the chain, the search result from the
/// start is the one from `i`.
pub proof fn lemma_first_index_by_chain_from(players: Seq<PlayerV>, chain: Seq<char>, i: int)
    requires
        0 <= i <= players.len(),
        forall|j: int| 0 <= j < i ==> players[j].chain_id != chain,
    ensures
        first_index_by_chain_from(players, chain, 0) == first_index_by_chain_from(players, chain, i),
    decreases i,
{
    if i > 0 {
        lemma_first_index_by_chain_from(players, chain, i - 1);
    }
}

impl GameRoom {
    /// Creates the room on the host chain, with the host as sole player.
    pub fn new(host_chain_id: String, host_name: String, timestamp: String) -> (room: GameRoom)
        ensures
            room@ == spec_new_room(host_chain_id@, host_name@, timestamp@),
            room@.wf(),
    {
        let host_player = Player {
            chain_id: host_chain_id.clone(),
            name: host_name,
            score: 0,
            has_guessed: false,
        };
        let room = GameRoom {
            room_id: timestamp,
            host_chain_id,
            players: vec![host_player],
            game_state: GameState::WaitingForPlayers,
            current_round: 0,
            total_rounds: 0,
            seconds_per_round: 0,
            current_drawer_index: None,
            word_chosen_at: None,
            chat_messages: Vec::new(),
            drawer_chosen_at: None,
            blob_hashes: Vec::new(),
        };
        proof {
            assert(room@ =~= spec_new_room(host_chain_id@, host_name@, timestamp@));
        }
        room
    }

    /// Whether some roster entry plays from the given chain.
    pub fn contains_chain(&self, chain_id: &String) -> (b: bool)
        ensures
            b == self@.has_player_chain(chain_id@),
    {
        let n = self.players.len();
        let mut i: usize = 0;
        while i < n
            invariant
                0 <= i <= n,
                n == self.players.len(),
                forall|j: int| 0 <= j < i ==> self@.players[j].chain_id != chain_id@,
            decreases n - i,
        {
            if self.players[i].chain_id == *chain_id {
                assert(self@.players[i as int].chain_id == chain_id@);
                return true;
            }
            i += 1;
        }
        false
    }

    /// Adds a player unless a player from the same chain is already present.
    pub fn add_player(&mut self, player: Player)
        ensures
            final(self)@ == spec_add_player(old(self)@, player@),
            old(self)@.wf() ==> final(self)@.wf(),
    {
        if !self.contains_chain(&player.chain_id) {
            let ghost before = self@;
            let ghost pv = player@;
            self.players.push(player);
            proof {
                assert(self@ =~= RoomV { players: before.players.push(pv), ..before });
            }
        }
    }

    /// Starts a match: sets the round plan, zeroes every score, clears every
    /// guessed flag, and enters drawer selection for round one.
    pub fn start_game(&mut self, rounds: u32, seconds_per_round: u32, _timestamp: String)
        ensures
            final(self)@ == spec_start_game(old(self)@, rounds, seconds_per_round),
            old(self)@.wf() ==> final(self)@.wf(),
    {
        self.total_rounds = rounds;
        self.seconds_per_round = seconds_per_round;
        self.current_round = 1;
        self.game_state = GameState::ChoosingDrawer;
        zero_scores_and_flags(&mut self.players);
        proof {
            assert(self@ =~= spec_start_game(old(self)@, rounds, seconds_per_round));
        }
    }

    /// Selects the next drawer cyclically and prepares the drawing turn:
    /// word timestamp cleared, drawer timestamp recorded, guessed flags
    /// reset. Returns the selected index, or `None` on an empty roster
    /// (then nothing changes).
    pub fn choose_drawer(&mut self, timestamp: String) -> (picked: Option<usize>)
        requires
            old(self)@.wf(),
        ensures
            final(self)@ == spec_choose_drawer(old(self)@, timestamp@),
            final(self)@.wf(),
            (picked is None) == (old(self)@.players.len() == 0),
            picked matches Some(i) ==> i as int == next_drawer_index(
                old(self)@.current_drawer_index,
                old(self)@.players.len() as int,
            ),
    {
        let n = self.players.len();
        if n == 0 {
            return None;
        }
        let next_index: usize = match self.current_drawer_index {
            None => 0,
            Some(current) => (current + 1) % n,
        };
        self.current_drawer_index = Some(next_index);
        self.game_state = GameState::WaitingForWord;
        self.word_chosen_at = None;
        self.drawer_chosen_at = Some(timestamp);
        clear_guessed_flags(&mut self.players);
        proof {
            assert(self@ =~= spec_choose_drawer(old(self)@, timestamp@));
        }
        Some(next_index)
    }

    /// Records that the drawer chose a word: only the timestamp enters the
    /// room; the word itself is kept elsewhere, on the drawer's own chain.
    pub fn choose_word(&mut self, timestamp: String)
        ensures
            final(self)@ == spec_choose_word(old(self)@, timestamp@),
            old(self)@.wf() ==> final(self)@.wf(),
    {
        self.word_chosen_at = Some(timestamp);
        self.game_state = GameState::Drawing;
    }

    /// Appends a chat entry.
    pub fn add_chat_message(&mut self, message: ChatMessage)
        ensures
            final(self)@ == (RoomV {
                chat_messages: old(self)@.chat_messages.push(message@),
                ..old(self)@
            }),
            old(self)@.wf() ==> final(self)@.wf(),
    {
        let ghost before = self@;
        let ghost mv = message@;
        self.chat_messages.push(message);
        proof {
            assert(self@ =~= RoomV { chat_messages: before.chat_messages.push(mv), ..before });
        }
    }

    /// Moves to the next round, or ends the game after the last one.
    pub fn advance_to_next_round(&mut self, _timestamp: String)
        ensures
            final(self)@ == spec_advance_round(old(self)@),
            old(self)@.wf() ==> final(self)@.wf(),
    {
        if self.current_round < self.total_rounds {
            self.current_round += 1;
            self.game_state = GameState::ChoosingDrawer;
            self.current_drawer_index = None;
            self.word_chosen_at = None;
            self.chat_messages.clear();
            proof {
                assert(self@ =~= spec_advance_round(old(self)@));
            }
        } else {
            self.game_state = GameState::GameEnded;
            proof {
                assert(self@ =~= spec_advance_round(old(self)@));
            }
        }
    }

    /// Whether every player has drawn once this round: the next cyclic index
    /// would wrap back to 0.
    pub fn has_all_players_drawn_in_round(&self) -> (b: bool)
        requires
            self@.wf(),
        ensures
            b == round_complete(self@),
    {
        let n = self.players.len();
        if n == 0 {
            return false;
        }
        match self.current_drawer_index {
            None => false,
            Some(current_index) => (current_index + 1) % n == 0,
        }
    }

    /// The current drawer's roster entry, if the index is set and in bounds.
    pub fn get_current_drawer(&self) -> (p: Option<&Player>)
        ensures
            p.deep_view() == spec_current_drawer(self@),
    {
        match self.current_drawer_index {
            Some(index) => {
                if index < self.players.len() {
                    Some(&self.players[index])
                } else {
                    None
                }
            },
            None => None,
        }
    }

    /// Awards points to the first player bearing the name and marks them as
    /// having guessed. The score saturates at the top of `u32` rather than
    /// wrap. An unknown name changes nothing.
    pub fn award_points(&mut self, player_name: &String, points: u32)
        ensures
            final(self)@ == spec_award_points(old(self)@, player_name@, points),
            old(self)@.wf() ==> final(self)@.wf(),
    {
        let n = self.players.len();
        let mut i: usize = 0;
        while i < n
            invariant
                0 <= i <= n,
                n == self.players.len(),
                self == old(self),
                forall|j: int| 0 <= j < i ==> self@.players[j].name != player_name@,
            decreases n - i,
        {
            if self.players[i].name == *player_name {
                proof {
                    lemma_first_index_by_name_from(old(self)@.players, player_name@, i as int);
                    assert(first_index_by_name(old(self)@.players, player_name@) == i as int);
                }
                let new_score = self.players[i].score.saturating_add(points);
                self.players[i].score = new_score;
                self.players[i].has_guessed = true;
                proof {
                    assert(self@ =~= spec_award_points(old(self)@, player_name@, points));
                }
                return ;
            }
            i += 1;
        }
        proof {
            lemma_first_index_by_name_from(old(self)@.players, player_name@, n as int);
        }
    }

    /// Removes the player of the given chain and re-aligns the drawer
    /// pointer: the drawer leaving resets selection; a removal before the
    /// drawer slides the index down by one. Returns the removed roster
    /// index, or `None` if no player of that chain was present.
    pub fn remove_player(&mut self, chain_id: &String) -> (removed: Option<usize>)
        requires
            old(self)@.wf(),
        ensures
            final(self)@ == spec_remove_player(old(self)@, chain_id@),
            final(self)@.wf(),
            removed matches Some(i) ==> i as int == first_index_by_chain(
                old(self)@.players,
                chain_id@,
            ),
            (removed is None) == (first_index_by_chain(old(self)@.players, chain_id@) == -1),
    {
        let n = self.players.len();
        let mut i: usize = 0;
        while i < n
            invariant
                0 <= i <= n,
                n == self.players.len(),
                self == old(self),
                old(self)@.wf(),
                forall|j: int| 0 <= j < i ==> self@.players[j].chain_id != chain_id@,
            decreases n - i,
        {
            if self.players[i].chain_id == *chain_id {
                proof {
                    lemma_first_index_by_chain_from(old(self)@.players, chain_id@, i as int);
                    assert(first_index_by_chain(old(self)@.players, chain_id@) == i as int);
                }
                self.players.remove(i);
                match self.current_drawer_index {
                    Some(current_idx) => {
                        if current_idx == i {
                            self.current_drawer_index = None;
                            self.game_state = GameState::ChoosingDrawer;
                            self.word_chosen_at = None;
                            self.drawer_chosen_at = None;
                        } else if current_idx > i {
                            self.current_drawer_index = Some(current_idx - 1);
                        }
                    },
                    None => {},
                }
                proof {
                    let ghost removed_players = old(self)@.players.remove(i as int);
                    old(self)@.players.remove_ensures(i as int);
                    assert(self.players.deep_view() =~= removed_players);
                    assert(self@ =~= spec_remove_player(old(self)@, chain_id@));
                    assert forall|a: int, b: int| 0 <= a < b < removed_players.len()
                        implies removed_players[a].chain_id != removed_players[b].chain_id by {
                        let a0: int = if a < i as int { a } else { a + 1 };
                        let b0: int = if b < i as int { b } else { b + 1 };
                        assert(removed_players[a] == old(self)@.players[a0]);
                        assert(removed_players[b] == old(self)@.players[b0]);
                    }
                }
                return Some(i);
            }
            i += 1;
        }
        proof {
            lemma_first_index_by_chain_from(old(self)@.players, chain_id@, n as int);
        }
        None
    }

    /// The display name of the first roster entry playing from the given
    /// chain, if any.
    pub fn player_name_by_chain(&self, chain_id: &String) -> (r: Option<String>)
        ensures
            r.deep_view() == name_by_chain(self@.players, chain_id@),
    {
        let n = self.players.len();
        let mut i: usize = 0;
        while i < n
            invariant
                0 <= i <= n,
                n == self.players.len(),
                forall|j: int| 0 <= j < i ==> self@.players[j].chain_id != chain_id@,
            decreases n - i,
        {
            if self.players[i].chain_id == *chain_id {
                proof {
                    lemma_first_index_by_chain_from(self@.players, chain_id@, i as int);
                    assert(first_index_by_chain(self@.players, chain_id@) == i as int);
                }
                return Some(self.players[i].name.clone());
            }
            i += 1;
        }
        proof {
            lemma_first_index_by_chain_from(self@.players, chain_id@, n as int);
        }
        None
    }

    /// The score of the first roster entry bearing the name; 0 if none.
    pub fn score_by_name(&self, name: &String) -> (score: u32)
        ensures
            score == ({
                let i = first_index_by_name(self@.players, name@);
                if i == -1 {
                    0u32
                } else {
                    self@.players[i].score
                }
            }),
    {
        let n = self.players.len();
        let mut i: usize = 0;
        while i < n
            invariant
                0 <= i <= n,
                n == self.players.len(),
                forall|j: int| 0 <= j < i ==> self@.players[j].name != name@,
            decreases n - i,
        {
            if self.players[i].name == *name {
                proof {
                    lemma_first_index_by_name_from(self@.players, name@, i as int);
                    assert(first_index_by_name(self@.players, name@) == i as int);
                }
                return self.players[i].score;
            }
            i += 1;
        }
        proof {
            lemma_first_index_by_name_from(self@.players, name@, n as int);
        }
        0
    }

    /// Whether the named player has already guessed this drawing turn.
    pub fn has_guessed_by_name(&self, name: &String) -> (b: bool)
        ensures
            b == any_guessed_by_name(self@.players, name@),
    {
        let n = self.players.len();
        let mut i: usize = 0;
        while i < n
            invariant
                0 <= i <= n,
                n == self.players.len(),
                forall|j: int| 0 <= j < i
                    ==> !(self@.players[j].name == name@ && self@.players[j].has_guessed),
            decreases n - i,
        {
            if self.players[i].name == *name && self.players[i].has_guessed {
                proof {
                    assert(self@.players[i as int].name == name@ && self@.players[i as int].has_guessed);
                }
                return true;
            }
            i += 1;
        }
        false
    }

    /// How many players have guessed correctly this drawing turn.
    pub fn count_players_guessed(&self) -> (c: usize)
        ensures
            c as nat == count_guessed(self@.players),
    {
        let n = self.players.len();
        let mut c: usize = 0;
        let mut i: usize = 0;
        while i < n
            invariant
                0 <= i <= n,
                n == self.players.len(),
                c <= i,
                c as nat == count_guessed(self@.players.subrange(0, i as int)),
            decreases n - i,
        {
            let ghost pre = self@.players.subrange(0, i as int);
            if self.players[i].has_guessed {
                c += 1;
            }
            i += 1;
            proof {
                let cur = self@.players.subrange(0, i as int);
                assert(cur.drop_last() =~= pre);
            }
        }
        proof {
            assert(self@.players.subrange(0, n as int) =~= self@.players);
        }
        c
    }

    /// Clears every guessed flag, leaving everything else as it is.
    pub fn reset_guessed_flags(&mut self)
        ensures
            final(self)@ == (RoomV { players: reset_guessed(old(self)@.players), ..old(self)@ }),
            old(self)@.wf() ==> final(self)@.wf(),
    {
        clear_guessed_flags(&mut self.players);
        proof {
            assert(self@ =~= RoomV { players: reset_guessed(old(self)@.players), ..old(self)@ });
        }
    }

    /// Whether the chat log already holds an entry with this author and
    /// text; the key the merge layer deduplicates chat events by.
    pub fn chat_contains(&self, name: &String, text: &String) -> (b: bool)
        ensures
            b == chat_dup(self@.chat_messages, name@, text@),
    {
        let n = self.chat_messages.len();
        let mut i: usize = 0;
        while i < n
            invariant
                0 <= i <= n,
                n == self.chat_messages.len(),
                forall|j: int| 0 <= j < i
                    ==> !(self@.chat_messages[j].player_name == name@
                        && self@.chat_messages[j].message == text@),
            decreases n - i,
        {
            if self.chat_messages[i].player_name == *name && self.chat_messages[i].message
                == *text {
                proof {
                    assert(self@.chat_messages[i as int].player_name == name@
                        && self@.chat_messages[i as int].message == text@);
                }
                return true;
            }
            i += 1;
        }
        false
    }

    /// Whether the replica invariant holds: drawer index in bounds and
    /// distinct chain identities.
    pub fn check_wf(&self) -> (b: bool)
        ensures
            b == self@.wf(),
    {
        if let Some(idx) = self.current_drawer_index {
            if idx >= self.players.len() {
                return false;
            }
        }
        let n = self.players.len();
        let mut i: usize = 0;
        while i < n
            invariant
                0 <= i <= n,
                n == self.players.len(),
                forall|a: int, b: int| 0 <= a < b < i
                    ==> self@.players[a].chain_id != self@.players[b].chain_id,
            decreases n - i,
        {
            let mut j: usize = 0;
            while j < i
                invariant
                    0 <= j <= i < n,
                    n == self.players.len(),
                    forall|a: int| 0 <= a < j
                        ==> self@.players[a].chain_id != self@.players[i as int].chain_id,
                decreases i - j,
            {
                if self.players[j].chain_id == self.players[i].chain_id {
                    proof {
                        assert(self@.players[j as int].chain_id == self@.players[i as int].chain_id);
                        assert(!distinct_chains(self@.players));
                    }
                    return false;
                }
                j += 1;
            }
            i += 1;
        }
        true
    }
}

/// Clears every guessed flag on the roster.
fn clear_guessed_flags(players: &mut Vec<Player>)
    ensures
        final(players).deep_view() == reset_guessed(old(players).deep_view()),
{
    let ghost before = players@;
    let n = players.len();
    let mut i: usize = 0;
    while i < n
        invariant
            0 <= i <= n,
            n == players@.len(),
            before.len() == n,
            forall|j: int| 0 <= j < i
                ==> #[trigger] players@[j] == (Player { has_guessed: false, ..before[j] }),
            forall|j: int| i <= j < n ==> #[trigger] players@[j] == before[j],
        decreases n - i,
    {
        players[i].has_guessed = false;
        i += 1;
    }
    proof {
        assert(players.deep_view() =~= reset_guessed(old(players).deep_view()));
    }
}

/// Zeroes every score and clears every guessed flag on the roster.
fn zero_scores_and_flags(players: &mut Vec<Player>)
    ensures
        final(players).deep_view() == reset_scores(old(players).deep_view()),
{
    let ghost before = players@;
    let n = players.len();
    let mut i: usize = 0;
    while i < n
        invariant
            0 <= i <= n,
            n == players@.len(),
            before.len() == n,
            forall|j: int| 0 <= j < i
                ==> #[trigger] players@[j] == (Player { score: 0, has_guessed: false, ..before[j] }),
            forall|j: int| i <= j < n ==> #[trigger] players@[j] == before[j],
        decreases n - i,
    {
        players[i].score = 0;
        players[i].has_guessed = false;
        i += 1;
    }
    proof {
        assert(players.deep_view() =~= reset_scores(old(players).deep_view()));
    }
}

} // verus!
