//! Player-side agent for a maze-exploration game: wire framing, the radar
//! view codec, the per-turn navigation decision and the player session.
pub mod base64;
pub mod cell;
pub mod direction;
pub mod error;
pub mod frame;
pub mod navigation;
pub mod protocol;
pub mod radar;
pub mod radar_encoding;
pub mod session;
pub mod text;
