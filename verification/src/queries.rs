//! Read projections over a chain's local state: roster, score-sorted
//! leaderboard, chat, round progress, drawer queries, and the archive
//! history. All are pure views of the replica; none changes state.

use vstd::assert_multisets_equal;
use vstd::prelude::*;

use crate::room::any_guessed_by_name;
use crate::room::first_index_by_name;
use crate::room::spec_current_drawer;
use crate::room::ChatMessage;
use crate::room::GameState;
use crate::room::Player;
use crate::room::PlayerV;
use crate::state::ChainState;
use crate::types::ArchivedRoom;

verus! {

/// Round progress as the read interface reports it.
#[derive(Debug)]
pub struct GameProgress {
    pub current_round: u32,
    pub total_rounds: u32,
    pub seconds_per_round: u32,
    pub word_chosen_at: Option<String>,
}

/// A sequence of players sorted by score, highest first.
pub open spec fn sorted_by_score_desc(players: Seq<PlayerV>) -> bool {
    forall|i: int, j: int|
        0 <= i < j < players.len() ==> players[i].score >= players[j].score
}

impl ChainState {
    /// The roster of the local room replica; empty without a room.
    pub fn players(&self) -> (v: Vec<Player>)
        ensures
            v.deep_view() == (match self@.room {
                Some(room) => room.players,
                None => Seq::<PlayerV>::empty(),
            }),
    {
        match &self.room {
            Some(room) => {
                let v = room.players.clone();
                proof {
                    assert(v.deep_view() =~= room.players.deep_view());
                }
                v
            },
            None => {
                let v: Vec<Player> = Vec::new();
                proof {
                    assert(v.deep_view() =~= Seq::<PlayerV>::empty());
                }
                v
            },
        }
    }

    /// The lifecycle state of the local room replica, if one exists.
    pub fn game_state(&self) -> (r: Option<GameState>)
        ensures
            r == (match self@.room {
                Some(room) => Some(room.game_state),
                None => None::<GameState>,
            }),
    {
        match &self.room {
            Some(room) => Some(room.game_state),
            None => None,
        }
    }

    /// The current drawer's roster entry, if a drawer is recorded.
    pub fn current_drawer(&self) -> (r: Option<Player>)
        ensures
            r.deep_view() == (match self@.room {
                Some(room) => spec_current_drawer(room),
                None => None::<PlayerV>,
            }),
    {
        match &self.room {
            Some(room) => match room.get_current_drawer() {
                Some(p) => Some(p.clone()),
                None => None,
            },
            None => None,
        }
    }

    /// The current drawer's display name, if a drawer is recorded.
    pub fn drawer_name(&self) -> (r: Option<String>)
        ensures
            r.deep_view() == (match self@.room {
                Some(room) => match spec_current_drawer(room) {
                    Some(d) => Some(d.name),
                    None => None::<Seq<char>>,
                },
                None => None::<Seq<char>>,
            }),
    {
        match &self.room {
            Some(room) => match room.get_current_drawer() {
                Some(p) => Some(p.name.clone()),
                None => None,
            },
            None => None,
        }
    }

    /// Whether the named player is the current drawer.
    pub fn is_player_drawer(&self, player_name: &String) -> (b: bool)
        ensures
            b == (match self@.room {
                Some(room) => spec_current_drawer(room) matches Some(d) && d.name
                    == player_name@,
                None => false,
            }),
    {
        match &self.room {
            Some(room) => match room.get_current_drawer() {
                Some(p) => p.name == *player_name,
                None => false,
            },
            None => false,
        }
    }

    /// Whether the named player has guessed correctly this drawing turn.
    pub fn player_has_guessed(&self, player_name: &String) -> (b: bool)
        ensures
            b == (match self@.room {
                Some(room) => any_guessed_by_name(room.players, player_name@),
                None => false,
            }),
    {
        match &self.room {
            Some(room) => room.has_guessed_by_name(player_name),
            None => false,
        }
    }

    /// The named player's score; 0 for an unknown name or without a room.
    pub fn player_score(&self, player_name: &String) -> (score: u32)
        ensures
            score == (match self@.room {
                Some(room) => {
                    let i = first_index_by_name(room.players, player_name@);
                    if i == -1 {
                        0u32
                    } else {
                        room.players[i].score
                    }
                },
                None => 0u32,
            }),
    {
        match &self.room {
            Some(room) => room.score_by_name(player_name),
            None => 0,
        }
    }

    /// The chat log of the local room replica; empty without a room.
    pub fn chat_messages(&self) -> (v: Vec<ChatMessage>)
        ensures
            v.deep_view() == (match self@.room {
                Some(room) => room.chat_messages,
                None => Seq::<crate::room::ChatMessageV>::empty(),
            }),
    {
        match &self.room {
            Some(room) => {
                let v = room.chat_messages.clone();
                proof {
                    assert(v.deep_view() =~= room.chat_messages.deep_view());
                }
                v
            },
            None => {
                let v: Vec<ChatMessage> = Vec::new();
                proof {
                    assert(v.deep_view() =~= Seq::<crate::room::ChatMessageV>::empty());
                }
                v
            },
        }
    }

    /// Round progress, if a room exists.
    pub fn game_progress(&self) -> (r: Option<GameProgress>)
        ensures
            match self@.room {
                Some(room) => r matches Some(g) && g.current_round == room.current_round
                    && g.total_rounds == room.total_rounds && g.seconds_per_round
                    == room.seconds_per_round && g.word_chosen_at.deep_view()
                    == room.word_chosen_at,
                None => r is None,
            },
    {
        match &self.room {
            Some(room) => Some(
                GameProgress {
                    current_round: room.current_round,
                    total_rounds: room.total_rounds,
                    seconds_per_round: room.seconds_per_round,
                    word_chosen_at: room.word_chosen_at.clone(),
                },
            ),
            None => None,
        }
    }

    /// The archive history of deleted rooms.
    pub fn archived_rooms(&self) -> (v: Vec<ArchivedRoom>)
        ensures
            v.deep_view() == self@.archived_rooms,
    {
        let v = self.archived_rooms.clone();
        proof {
            assert(v.deep_view() =~= self.archived_rooms.deep_view());
        }
        v
    }

    /// The roster sorted by score, highest first: the same players (as a
    /// multiset), in non-increasing score order. Empty without a room.
    pub fn leaderboard(&self) -> (v: Vec<Player>)
        ensures
            match self@.room {
                Some(room) => v.deep_view().to_multiset() == room.players.to_multiset()
                    && sorted_by_score_desc(v.deep_view()),
                None => v.deep_view() == Seq::<PlayerV>::empty(),
            },
    {
        match &self.room {
            Some(room) => {
                let work = room.players.clone();
                proof {
                    assert(work.deep_view() =~= room.players.deep_view());
                }
                sort_by_score_desc(work)
            },
            None => {
                let v: Vec<Player> = Vec::new();
                proof {
                    assert(v.deep_view() =~= Seq::<PlayerV>::empty());
                }
                v
            },
        }
    }
}

/// Sorts players by score, highest first, by repeatedly extracting a
/// maximum: the result is a permutation of the input in non-increasing
/// score order.
fn sort_by_score_desc(players: Vec<Player>) -> (sorted: Vec<Player>)
    ensures
        sorted.deep_view().to_multiset() == players.deep_view().to_multiset(),
        sorted_by_score_desc(sorted.deep_view()),
{
    broadcast use vstd::seq_lib::group_to_multiset_ensures;
    broadcast use vstd::multiset::group_multiset_axioms;

    let ghost orig = players.deep_view();
    let mut work = players;
    let mut out: Vec<Player> = Vec::new();
    proof {
        assert(out.deep_view() =~= Seq::<PlayerV>::empty());
        assert_multisets_equal!(
            out.deep_view().to_multiset().add(work.deep_view().to_multiset()),
            orig.to_multiset()
        );
    }
    while work.len() > 0
        invariant
            out.deep_view().to_multiset().add(work.deep_view().to_multiset())
                == orig.to_multiset(),
            sorted_by_score_desc(out.deep_view()),
            forall|a: int, b: int|
                0 <= a < out.deep_view().len() && 0 <= b < work.deep_view().len()
                    ==> out.deep_view()[a].score >= work.deep_view()[b].score,
        decreases work.len(),
    {
        let n = work.len();
        let mut max_i: usize = 0;
        let mut j: usize = 1;
        while j < n
            invariant
                0 <= max_i < j <= n,
                n == work.len(),
                forall|k: int| 0 <= k < j ==> work.deep_view()[k].score <= work.deep_view()[
                    max_i as int
                ].score,
            decreases n - j,
        {
            if work[j].score > work[max_i].score {
                max_i = j;
            }
            j += 1;
        }
        let ghost work_before = work.deep_view();
        let ghost x = work.deep_view()[max_i as int];
        let picked = work.remove(max_i);
        let ghost out_before = out.deep_view();
        out.push(picked);
        proof {
            broadcast use vstd::seq_lib::group_to_multiset_ensures;
            broadcast use vstd::multiset::group_multiset_axioms;

            assert(picked@ == x);
            assert(work_before.contains(x)) by {
                assert(work_before[max_i as int] == x);
            }
            assert(work_before.to_multiset().count(x) > 0);
            let removed = work_before.remove(max_i as int);
            assert(work.deep_view() =~= removed);
            assert(removed.to_multiset() =~= work_before.to_multiset().remove(x));
            assert(out.deep_view() =~= out_before.push(x));
            assert(out_before.push(x).to_multiset() =~= out_before.to_multiset().insert(x));
            assert_multisets_equal!(
                out.deep_view().to_multiset().add(work.deep_view().to_multiset()),
                orig.to_multiset()
            );
            work_before.remove_ensures(max_i as int);
            assert forall|b: int| 0 <= b < work.deep_view().len()
                implies work.deep_view()[b].score <= x.score by {
                if b < max_i as int {
                    assert(work.deep_view()[b] == work_before[b]);
                } else {
                    assert(work.deep_view()[b] == work_before[b + 1]);
                }
            }
        }
    }
    proof {
        assert(work.deep_view() =~= Seq::<PlayerV>::empty());
        assert_multisets_equal!(
            out.deep_view().to_multiset(),
            orig.to_multiset()
        );
    }
    out
}

} // verus!
