//! Play-state packets.

pub mod chat;
pub mod commands;
pub mod common;
pub mod dimension;
pub mod join_game;
pub mod misc;
pub mod respawn;
pub mod respawn_switch;
pub mod spawn_position;
pub mod tab_complete;

pub use chat::{CChatMessageLegacy, CSystemChatMessage, SChatCommand, SChatMessage};
pub use commands::{CCommands, CommandNode, Parser};
pub use dimension::{extract_dimension_from_join_game, DimensionInfo};
pub use join_game::CJoinGame;
pub use misc::{
    CKeepAlive, CSetCenterChunk, CStartConfiguration, CTransfer, SAcknowledgeConfiguration,
    SChatSessionUpdate, SKeepAlive,
};
pub use respawn::CRespawn;
pub use respawn_switch::for_switch;
pub use spawn_position::{pack_block_position, CSetDefaultSpawnPosition};
pub use tab_complete::{CTabCompleteResponse, STabCompleteRequest, TabCompleteMatch};
