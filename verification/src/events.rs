//! The closed vocabulary of the protocol: local operations a user can
//! request, directed cross-chain messages, broadcast events, and the
//! outbound effects a transition asks the transport to perform. Each type
//! has a mathematical view so contracts can state exactly what a transition
//! emits.

use vstd::prelude::*;

use crate::room::ChatMessage;
use crate::room::ChatMessageV;
use crate::room::GameRoom;
use crate::room::Player;
use crate::room::PlayerV;
use crate::room::RoomV;
use crate::types::ArchivedRoom;
use crate::types::ArchivedRoomV;

verus! {

/// Operations a chain's local user can request.
#[derive(Debug)]
pub enum Operation {
    CreateRoom { host_name: String },
    JoinRoom { host_chain_id: String, player_name: String },
    StartGame { rounds: u32, seconds_per_round: u32 },
    ChooseDrawer,
    ChooseWord { word: String },
    GuessWord { guess: String },
    EndMatch,
    LeaveRoom { blob_hashes: Option<Vec<String>> },
    ReadDataBlob { hash: String },
}

/// Mathematical view of an `Operation`.
#[verifier::ext_equal]
pub ghost enum OperationV {
    CreateRoom { host_name: Seq<char> },
    JoinRoom { host_chain_id: Seq<char>, player_name: Seq<char> },
    StartGame { rounds: u32, seconds_per_round: u32 },
    ChooseDrawer,
    ChooseWord { word: Seq<char> },
    GuessWord { guess: Seq<char> },
    EndMatch,
    LeaveRoom { blob_hashes: Option<Seq<Seq<char>>> },
    ReadDataBlob { hash: Seq<char> },
}

impl View for Operation {
    type V = OperationV;

    open spec fn view(&self) -> OperationV {
        match self {
            Operation::CreateRoom { host_name } => OperationV::CreateRoom {
                host_name: host_name@,
            },
            Operation::JoinRoom { host_chain_id, player_name } => OperationV::JoinRoom {
                host_chain_id: host_chain_id@,
                player_name: player_name@,
            },
            Operation::StartGame { rounds, seconds_per_round } => OperationV::StartGame {
                rounds: *rounds,
                seconds_per_round: *seconds_per_round,
            },
            Operation::ChooseDrawer => OperationV::ChooseDrawer,
            Operation::ChooseWord { word } => OperationV::ChooseWord { word: word@ },
            Operation::GuessWord { guess } => OperationV::GuessWord { guess: guess@ },
            Operation::EndMatch => OperationV::EndMatch,
            Operation::LeaveRoom { blob_hashes } => OperationV::LeaveRoom {
                blob_hashes: blob_hashes.deep_view(),
            },
            Operation::ReadDataBlob { hash } => OperationV::ReadDataBlob { hash: hash@ },
        }
    }
}

/// Broadcast events, published on the emitting chain's own stream.
#[derive(Debug, Clone)]
pub enum DoodleEvent {
    PlayerJoined { player: Player, timestamp: String },
    GameStarted {
        rounds: u32,
        seconds_per_round: u32,
        drawer_index: usize,
        drawer_name: String,
        timestamp: String,
    },
    DrawerChosen {
        drawer_index: usize,
        drawer_name: String,
        timestamp: String,
        previous_blob_hash: Option<String>,
    },
    WordChosen { timestamp: String },
    ChatMessage { message: ChatMessage },
    RoundEnded { scores: Vec<(String, u32)>, timestamp: String },
    GameEnded { final_scores: Vec<(String, u32)>, timestamp: String },
    MatchEnded { timestamp: String },
}

/// Mathematical view of a `DoodleEvent`.
#[verifier::ext_equal]
pub ghost enum EventV {
    PlayerJoined { player: PlayerV, timestamp: Seq<char> },
    GameStarted {
        rounds: u32,
        seconds_per_round: u32,
        drawer_index: int,
        drawer_name: Seq<char>,
        timestamp: Seq<char>,
    },
    DrawerChosen {
        drawer_index: int,
        drawer_name: Seq<char>,
        timestamp: Seq<char>,
        previous_blob_hash: Option<Seq<char>>,
    },
    WordChosen { timestamp: Seq<char> },
    ChatMessage { message: ChatMessageV },
    RoundEnded { scores: Seq<(Seq<char>, u32)>, timestamp: Seq<char> },
    GameEnded { final_scores: Seq<(Seq<char>, u32)>, timestamp: Seq<char> },
    MatchEnded { timestamp: Seq<char> },
}

impl View for DoodleEvent {
    type V = EventV;

    open spec fn view(&self) -> EventV {
        match self {
            DoodleEvent::PlayerJoined { player, timestamp } => EventV::PlayerJoined {
                player: player@,
                timestamp: timestamp@,
            },
            DoodleEvent::GameStarted {
                rounds,
                seconds_per_round,
                drawer_index,
                drawer_name,
                timestamp,
            } => EventV::GameStarted {
                rounds: *rounds,
                seconds_per_round: *seconds_per_round,
                drawer_index: *drawer_index as int,
                drawer_name: drawer_name@,
                timestamp: timestamp@,
            },
            DoodleEvent::DrawerChosen {
                drawer_index,
                drawer_name,
                timestamp,
                previous_blob_hash,
            } => EventV::DrawerChosen {
                drawer_index: *drawer_index as int,
                drawer_name: drawer_name@,
                timestamp: timestamp@,
                previous_blob_hash: previous_blob_hash.deep_view(),
            },
            DoodleEvent::WordChosen { timestamp } => EventV::WordChosen { timestamp: timestamp@ },
            DoodleEvent::ChatMessage { message } => EventV::ChatMessage { message: message@ },
            DoodleEvent::RoundEnded { scores, timestamp } => EventV::RoundEnded {
                scores: scores.deep_view(),
                timestamp: timestamp@,
            },
            DoodleEvent::GameEnded { final_scores, timestamp } => EventV::GameEnded {
                final_scores: final_scores.deep_view(),
                timestamp: timestamp@,
            },
            DoodleEvent::MatchEnded { timestamp } => EventV::MatchEnded { timestamp: timestamp@ },
        }
    }
}

impl DeepView for DoodleEvent {
    type V = EventV;

    open spec fn deep_view(&self) -> EventV {
        self.view()
    }
}

/// Directed messages between two named chains; delivered reliably, in FIFO
/// order per sender-receiver pair.
#[derive(Debug, Clone)]
pub enum CrossChainMessage {
    JoinRequest { player_chain_id: String, player_name: String },
    GuessSubmission { guesser_chain_id: String, guess: String, round: u32 },
    InitialStateSync { room_data: GameRoom },
    RoomDeleted { timestamp: String, archived_room: Option<ArchivedRoom> },
    PlayerLeft { player_chain_id: String, player_name: Option<String>, timestamp: String },
}

/// Mathematical view of a `CrossChainMessage`.
#[verifier::ext_equal]
pub ghost enum MessageV {
    JoinRequest { player_chain_id: Seq<char>, player_name: Seq<char> },
    GuessSubmission { guesser_chain_id: Seq<char>, guess: Seq<char>, round: u32 },
    InitialStateSync { room_data: RoomV },
    RoomDeleted { timestamp: Seq<char>, archived_room: Option<ArchivedRoomV> },
    PlayerLeft {
        player_chain_id: Seq<char>,
        player_name: Option<Seq<char>>,
        timestamp: Seq<char>,
    },
}

impl View for CrossChainMessage {
    type V = MessageV;

    open spec fn view(&self) -> MessageV {
        match self {
            CrossChainMessage::JoinRequest { player_chain_id, player_name } => {
                MessageV::JoinRequest {
                    player_chain_id: player_chain_id@,
                    player_name: player_name@,
                }
            },
            CrossChainMessage::GuessSubmission { guesser_chain_id, guess, round } => {
                MessageV::GuessSubmission {
                    guesser_chain_id: guesser_chain_id@,
                    guess: guess@,
                    round: *round,
                }
            },
            CrossChainMessage::InitialStateSync { room_data } => MessageV::InitialStateSync {
                room_data: room_data@,
            },
            CrossChainMessage::RoomDeleted { timestamp, archived_room } => MessageV::RoomDeleted {
                timestamp: timestamp@,
                archived_room: archived_room.deep_view(),
            },
            CrossChainMessage::PlayerLeft { player_chain_id, player_name, timestamp } => {
                MessageV::PlayerLeft {
                    player_chain_id: player_chain_id@,
                    player_name: player_name.deep_view(),
                    timestamp: timestamp@,
                }
            },
        }
    }
}

impl DeepView for CrossChainMessage {
    type V = MessageV;

    open spec fn deep_view(&self) -> MessageV {
        self.view()
    }
}

/// One outbound request a transition hands to the transport: send a
/// directed message, publish an event on the own stream, manage a stream
/// subscription, or fetch a stored blob.
#[derive(Debug, Clone)]
pub enum Effect {
    SendMessage { to: String, message: CrossChainMessage },
    Emit { stream: String, event: DoodleEvent },
    Subscribe { chain: String, stream: String },
    Unsubscribe { chain: String, stream: String },
    ReadBlob { hash: String },
}

/// Mathematical view of an `Effect`.
#[verifier::ext_equal]
pub ghost enum EffectV {
    SendMessage { to: Seq<char>, message: MessageV },
    Emit { stream: Seq<char>, event: EventV },
    Subscribe { chain: Seq<char>, stream: Seq<char> },
    Unsubscribe { chain: Seq<char>, stream: Seq<char> },
    ReadBlob { hash: Seq<char> },
}

impl View for Effect {
    type V = EffectV;

    open spec fn view(&self) -> EffectV {
        match self {
            Effect::SendMessage { to, message } => EffectV::SendMessage {
                to: to@,
                message: message@,
            },
            Effect::Emit { stream, event } => EffectV::Emit { stream: stream@, event: event@ },
            Effect::Subscribe { chain, stream } => EffectV::Subscribe {
                chain: chain@,
                stream: stream@,
            },
            Effect::Unsubscribe { chain, stream } => EffectV::Unsubscribe {
                chain: chain@,
                stream: stream@,
            },
            Effect::ReadBlob { hash } => EffectV::ReadBlob { hash: hash@ },
        }
    }
}

impl DeepView for Effect {
    type V = EffectV;

    open spec fn deep_view(&self) -> EffectV {
        self.view()
    }
}

/// An authority violation: an action restricted to the host or to the
/// current drawer was attempted from another chain. Rejected with no state
/// change.
#[derive(Debug, Clone, Copy, PartialEq, Eq, Structural)]
pub enum OpError {
    NotHost,
    NotDrawer,
}

} // verus!
