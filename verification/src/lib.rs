//! Self-KVM: share one keyboard and mouse across several machines.
//!
//! The server's [`server::ServerMachine`] turns captured input into messages for the client that
//! holds the cursor; the client's [`client::ClientMachine`] turns them back into input. Around them
//! stand the wire format ([`message`], [`transport`]), the [`handshake`], the loops that drive the
//! machines ([`controller`], [`session`]), file transfers ([`file_transfer`], [`sending`],
//! [`receiving`]) and the trust in servers ([`tls`]). None of it touches a socket, a disk or a
//! device: that is left to the program that uses the library.

pub mod bulk;
pub mod capture;
pub mod client;
pub mod clipboard;
pub mod codec;
pub mod config;
pub mod controller;
pub mod deck;
pub mod directory;
pub mod error;
pub mod events;
pub mod field;
pub mod file_transfer;
pub mod forwarding;
pub mod handshake;
pub mod hooks;
pub mod inject;
pub mod injection;
pub mod input;
pub mod keys;
pub mod layout;
pub mod message;
pub mod name_map;
pub mod opcode;
pub mod payloads;
pub mod receiving;
pub mod sending;
pub mod server;
pub mod session;
pub mod text;
pub mod tls;
pub mod transport;
pub mod wire;
