//! Small leaf types of the application's interface: the archival record a
//! deleted room leaves behind, blob metadata, drawing points kept for
//! compatibility with the external drawing channel, and the marker type
//! naming the application's interface.

use vstd::prelude::*;

verus! {

/// Marker for the application interface: operations in, events and directed
/// messages out.
pub struct DoodleGameAbi;

/// The immutable record a deleted room leaves behind: its identifier, the
/// drawing history as blob hashes, and the deletion timestamp.
#[derive(Debug)]
pub struct ArchivedRoom {
    pub room_id: String,
    pub blob_hashes: Vec<String>,
    pub timestamp: String,
}

/// Mathematical view of an `ArchivedRoom`.
#[verifier::ext_equal]
pub ghost struct ArchivedRoomV {
    pub room_id: Seq<char>,
    pub blob_hashes: Seq<Seq<char>>,
    pub timestamp: Seq<char>,
}

impl View for ArchivedRoom {
    type V = ArchivedRoomV;

    open spec fn view(&self) -> ArchivedRoomV {
        ArchivedRoomV {
            room_id: self.room_id@,
            blob_hashes: self.blob_hashes.deep_view(),
            timestamp: self.timestamp@,
        }
    }
}

impl DeepView for ArchivedRoom {
    type V = ArchivedRoomV;

    open spec fn deep_view(&self) -> ArchivedRoomV {
        self.view()
    }
}

impl Clone for ArchivedRoom {
    fn clone(&self) -> (res: Self)
        ensures
            res@ == self@,
    {
        let res = ArchivedRoom {
            room_id: self.room_id.clone(),
            blob_hashes: self.blob_hashes.clone(),
            timestamp: self.timestamp.clone(),
        };
        proof {
            assert(res.blob_hashes.deep_view() =~= self.blob_hashes.deep_view());
            assert(res@ =~= self@);
        }
        res
    }
}

/// One point of a drawing stroke. Strokes travel over an external realtime
/// channel; the type is kept for that interface.
#[derive(Debug, Clone)]
pub struct DrawPoint {
    pub x: i32,
    pub y: i32,
}

/// A drawing point as handed back to readers.
#[derive(Debug, Clone)]
pub struct DrawPointOutput {
    pub x: i32,
    pub y: i32,
}

/// A historical free-form event record; retained for interface
/// compatibility, no longer produced by the protocol.
#[derive(Debug, Clone)]
pub struct GameEvent {
    pub event_type: String,
    pub description: String,
    pub timestamp: String,
    pub player_name: Option<String>,
    pub round: Option<u32>,
}

/// Metadata of one stored drawing blob.
#[derive(Debug, Clone)]
pub struct DataBlobInfo {
    pub hash: String,
    pub size: u32,
}

} // verus!
