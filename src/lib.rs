//! Peer-to-peer encrypted chat: wire framing, the Noise session and its
//! optional shared-secret authentication, the application message
//! protocol, file-transfer state machines, the encrypted history store and
//! the decisions of the interactive session.

pub mod auth;
pub mod bytes;
pub mod cli;
pub mod config;
pub mod files;
pub mod frame;
pub mod noise;
pub mod protocol;
pub mod session;
pub mod storage;
pub mod text;
pub mod tui;
