//! Transfer of media files between machines on one local network.
//!
//! The library decides; it never touches a socket or the disk. Whoever uses it
//! reads and writes, and reports what was read: the library says what a
//! connection does next ([`session`]), what is answered ([`server`],
//! [`duplicates`]), how the files of a transfer arrive and leave
//! ([`reception`], [`client`]), what the destination folder is called
//! ([`config`], [`temp`]), what is kept of a transfer ([`history`]), which
//! transfer is cancelled ([`cancel`]), and who is on the network
//! ([`registry`]). The messages and their framing are in [`wire`] and [`json`].
//!
//! Every function is verified against its contract. What is taken on trust from
//! the standard library and from other crates is in [`platform`], [`json`] and
//! [`text`], each item with what it relies on.

pub mod cancel;
pub mod client;
pub mod config;
pub mod duplicates;
pub mod files;
pub mod history;
pub mod json;
pub mod notify;
pub mod platform;
pub mod reception;
pub mod registry;
pub mod seqs;
pub mod server;
pub mod session;
pub mod temp;
pub mod text;
pub mod updates;
pub mod wire;
