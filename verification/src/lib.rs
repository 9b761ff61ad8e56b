//! A multi-user chat service spoken over telnet: the wire decoder, the
//! channel and coordinator bookkeeping, and the per-connection session logic.

pub mod channel;
pub mod client;
pub mod coordinator;
pub mod names;
pub mod server;
pub mod telnet;
pub mod text;
pub mod ui;
