//! The durable state one chain keeps, and its invariant: the local room
//! replica, the secret word (drawer chain only), the single host
//! subscription marker, and the archive of deleted rooms.

use vstd::prelude::*;

use crate::room::GameRoom;
use crate::room::RoomV;
use crate::types::ArchivedRoom;
use crate::types::ArchivedRoomV;

verus! {

/// What a transition learns from its chain's runtime: the identity of the
/// executing chain and the current time, rendered as strings.
#[derive(Debug)]
pub struct LocalContext {
    pub chain_id: String,
    pub timestamp: String,
}

/// Mathematical view of a `LocalContext`.
#[verifier::ext_equal]
pub ghost struct CtxV {
    pub chain_id: Seq<char>,
    pub timestamp: Seq<char>,
}

impl View for LocalContext {
    type V = CtxV;

    open spec fn view(&self) -> CtxV {
        CtxV { chain_id: self.chain_id@, timestamp: self.timestamp@ }
    }
}

/// The durable local state of one chain.
#[derive(Debug)]
pub struct ChainState {
    /// This chain's replica of the room, if it is in one.
    pub room: Option<GameRoom>,
    /// The secret word; present only on the chain of the drawer who chose it.
    pub current_word: Option<String>,
    /// The host chain this player is subscribed to, recorded once so that
    /// repeated state snapshots do not subscribe twice.
    pub subscribed_to_host: Option<String>,
    /// Archives of deleted rooms, at most one per room identifier.
    pub archived_rooms: Vec<ArchivedRoom>,
}

/// Mathematical view of a `ChainState`.
#[verifier::ext_equal]
pub ghost struct ChainStateV {
    pub room: Option<RoomV>,
    pub current_word: Option<Seq<char>>,
    pub subscribed_to_host: Option<Seq<char>>,
    pub archived_rooms: Seq<ArchivedRoomV>,
}

impl View for ChainState {
    type V = ChainStateV;

    open spec fn view(&self) -> ChainStateV {
        ChainStateV {
            room: self.room.deep_view(),
            current_word: self.current_word.deep_view(),
            subscribed_to_host: self.subscribed_to_host.deep_view(),
            archived_rooms: self.archived_rooms.deep_view(),
        }
    }
}

/// Whether some archive in the list carries the given room identifier.
pub open spec fn has_archive(archives: Seq<ArchivedRoomV>, room_id: Seq<char>) -> bool {
    exists|i: int| 0 <= i < archives.len() && archives[i].room_id == room_id
}

/// How many archives in the list carry the given room identifier.
pub open spec fn count_archives(archives: Seq<ArchivedRoomV>, room_id: Seq<char>) -> nat
    decreases archives.len(),
{
    if archives.len() == 0 {
        0
    } else {
        count_archives(archives.drop_last(), room_id) + if archives.last().room_id == room_id {
            1nat
        } else {
            0nat
        }
    }
}

/// Storing an archive is keyed by room identifier: a room already archived
/// is not archived again.
pub open spec fn spec_store_archive(
    archives: Seq<ArchivedRoomV>,
    archived: ArchivedRoomV,
) -> Seq<ArchivedRoomV> {
    if has_archive(archives, archived.room_id) {
        archives
    } else {
        archives.push(archived)
    }
}

/// Archive identifiers are unique in the list.
pub open spec fn distinct_archive_ids(archives: Seq<ArchivedRoomV>) -> bool {
    forall|i: int, j: int|
        0 <= i < j < archives.len() ==> archives[i].room_id != archives[j].room_id
}

impl ChainStateV {
    /// The invariant of a chain's durable state: a stored room replica is
    /// well-formed and the archive holds at most one record per room.
    pub open spec fn wf(self) -> bool {
        &&& self.room matches Some(r) ==> r.wf()
        &&& distinct_archive_ids(self.archived_rooms)
    }
}

impl ChainState {
    /// The state a chain starts from: no room, no word, no subscription, no
    /// archives.
    pub fn new() -> (s: ChainState)
        ensures
            s@ == (ChainStateV {
                room: None,
                current_word: None,
                subscribed_to_host: None,
                archived_rooms: Seq::empty(),
            }),
            s@.wf(),
    {
        let s = ChainState {
            room: None,
            current_word: None,
            subscribed_to_host: None,
            archived_rooms: Vec::new(),
        };
        proof {
            assert(s@ =~= ChainStateV {
                room: None,
                current_word: None,
                subscribed_to_host: None,
                archived_rooms: Seq::empty(),
            });
        }
        s
    }

    /// Whether an archive with the given room identifier is already stored.
    pub fn has_archive_for(&self, room_id: &String) -> (b: bool)
        ensures
            b == has_archive(self@.archived_rooms, room_id@),
    {
        let n = self.archived_rooms.len();
        let mut i: usize = 0;
        while i < n
            invariant
                0 <= i <= n,
                n == self.archived_rooms.len(),
                forall|j: int| 0 <= j < i ==> self@.archived_rooms[j].room_id != room_id@,
            decreases n - i,
        {
            if self.archived_rooms[i].room_id == *room_id {
                proof {
                    assert(self@.archived_rooms[i as int].room_id == room_id@);
                }
                return true;
            }
            i += 1;
        }
        false
    }

    /// Whether the durable-state invariant holds: a stored room replica is
    /// well-formed and archive identifiers are unique.
    pub fn check_wf(&self) -> (b: bool)
        ensures
            b == self@.wf(),
    {
        match &self.room {
            Some(room) => {
                if !room.check_wf() {
                    return false;
                }
            },
            None => {},
        }
        let n = self.archived_rooms.len();
        let mut i: usize = 0;
        while i < n
            invariant
                0 <= i <= n,
                n == self.archived_rooms.len(),
                self@.room matches Some(r) ==> r.wf(),
                forall|a: int, b: int| 0 <= a < b < i
                    ==> self@.archived_rooms[a].room_id != self@.archived_rooms[b].room_id,
            decreases n - i,
        {
            let mut j: usize = 0;
            while j < i
                invariant
                    0 <= j <= i < n,
                    n == self.archived_rooms.len(),
                    forall|a: int| 0 <= a < j
                        ==> self@.archived_rooms[a].room_id != self@.archived_rooms[i as int].room_id,
                decreases i - j,
            {
                if self.archived_rooms[j].room_id == self.archived_rooms[i].room_id {
                    proof {
                        assert(self@.archived_rooms[j as int].room_id == self@.archived_rooms[
                            i as int
                        ].room_id);
                        assert(!distinct_archive_ids(self@.archived_rooms));
                    }
                    return false;
                }
                j += 1;
            }
            i += 1;
        }
        true
    }

    /// Stores an archive unless one with the same room identifier already
    /// exists; keeps archive identifiers unique.
    pub fn store_archive(&mut self, archived: ArchivedRoom)
        ensures
            final(self)@ == (ChainStateV {
                archived_rooms: spec_store_archive(old(self)@.archived_rooms, archived@),
                ..old(self)@
            }),
            old(self)@.wf() ==> final(self)@.wf(),
    {
        if !self.has_archive_for(&archived.room_id) {
            let ghost before = self@;
            let ghost av = archived@;
            self.archived_rooms.push(archived);
            proof {
                assert(self@ =~= ChainStateV {
                    archived_rooms: before.archived_rooms.push(av),
                    ..before
                });
            }
        }
    }
}

} // verus!
