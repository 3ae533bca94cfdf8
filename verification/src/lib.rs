//! Minecraft protocol codec and server-management decisions for the
//! Infrarust proxy, with machine-checked contracts.

pub mod error;
pub mod text;
pub mod codec;
pub mod version;
pub mod server_manager;
pub mod legacy;
pub mod nbt;
pub mod packets;
pub mod registry;
pub mod io;
pub mod chunk;
pub mod nbt_text;
pub mod crypto;
pub mod prelude;
