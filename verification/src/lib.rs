//! Remote desktop for a live X11 screen.
//!
//! Two transports share this library. The RDP side decides how frames reach a
//! client, turns RDP input into X events and checks logins. The older side
//! speaks a small protocol of its own over an encrypted link. Sockets, the X
//! connection, ffmpeg and the RDP stack stay with the program that uses the
//! library: it performs the reads and writes that are asked for here, and hands
//! back the bytes.

pub mod args;
pub mod avi;
pub mod caps;
pub mod capture;
pub mod characters;
pub mod client;
pub mod coding;
pub mod command;
pub mod cursor;
pub mod input;
pub mod keys;
pub mod link;
pub mod listen;
pub mod login;
pub mod mode;
pub mod noise;
pub mod pdu;
pub mod serve;
pub mod session;
pub mod stream;
pub mod text;
pub mod tiles;
pub mod typing;
pub mod view;
pub mod wire;
