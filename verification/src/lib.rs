//! The familyline game server's library: the registry of logged-in clients
//! and the requests it answers, the lobby chat, the game packets and their
//! frames, the HTTP request reader and response writer, and the discovery
//! answers.
pub mod api;
pub mod broadcast;
pub mod chat;
pub mod client;
pub mod clock;
pub mod config;
pub mod crc;
pub mod flatbuf;
pub mod gamemsg;
pub mod input;
pub mod messages;
pub mod network;
pub mod packet_reader;
pub mod request;
pub mod server;
pub mod state;
pub mod text;
