//! Verified core of a WebRTC signaling server: peer-id allocation, the
//! registry of signed-in peers, the lobby, message dispatch, and the
//! TURN server's configuration and credentials.

pub mod peer_id;
pub mod types;
pub mod message;
pub mod peer;
pub mod lobby;
pub mod signaling;
pub mod lobby_signaling;
pub mod standalone;
pub mod configs;
pub mod auth;
