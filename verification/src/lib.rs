//! Cross-chain synchronization core for a multiplayer drawing-and-guessing
//! game. Each participating chain (one host, one per player) keeps its own
//! replica of a game room; replicas are reconciled through directed messages
//! and per-chain broadcast event streams. This crate holds the verified
//! core: the room aggregate, the round/drawer state machine, the idempotent
//! merge layer, the host relay, the subscription bookkeeping, and the
//! archival/deletion protocol. Transport, storage and time stay outside:
//! every transition here is a pure function from local state and a delivered
//! input to the next local state plus a list of outbound effects.

pub mod contract;
pub mod events;
pub mod laws;
pub mod merge;
pub mod queries;
pub mod room;
pub mod state;
pub mod text;
pub mod types;

pub use events::CrossChainMessage;
pub use events::DoodleEvent;
pub use events::Effect;
pub use events::OpError;
pub use events::Operation;
pub use queries::GameProgress;
pub use room::ChatMessage;
pub use room::GameRoom;
pub use room::GameState;
pub use room::Player;
pub use state::ChainState;
pub use state::LocalContext;
pub use types::ArchivedRoom;
pub use types::DataBlobInfo;
pub use types::DoodleGameAbi;
pub use types::DrawPoint;
pub use types::DrawPointOutput;
pub use types::GameEvent;
