//! Core of a mock backend gateway for a game's online beta test: route
//! dispatch over a fixed catalogue, fixture rendering, bounded body
//! ingestion, the save-slot synchronisation transform, the WebSocket
//! heartbeat and the TLS-or-plaintext startup policy.
//!
//! Everything here works on plain values. Sockets, files and the async
//! runtime belong to the program built around this library.

pub mod body;
pub mod bootstrap;
pub mod codec;
pub mod error;
pub mod files;
pub mod fixture;
pub mod identity;
pub mod path;
pub mod response;
pub mod route;
pub mod server;
pub mod sync;
pub mod text;
pub mod ws;
