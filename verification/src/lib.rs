//! Client-side logic of a private file vault, free of I/O.
//!
//! The vault is reached by one request and one response per TLS connection.
//! This library decides what is written and what the answer means; opening
//! connections, reading files and running tasks is left to its caller.
//!
//! - [`req`] writes and reads frames, [`transport`] delimits them on the
//!   connection, [`encoding`] and [`checksum`] hold the base64 and CRC-32
//!   that they rest on.
//! - [`biz`] holds the remote operations, [`control`] the session that they
//!   carry, [`authorization`] its renewal, [`error`] what can go wrong.
//! - [`job`] keeps the books of one transfer; [`upload`] and [`download`]
//!   hold what is particular to each direction.
//! - [`client`] holds the configuration, [`terminal`] the commands of the
//!   interactive client, [`text`] and [`units`] what the others share.

pub mod authorization;
pub mod biz;
pub mod checksum;
pub mod client;
pub mod control;
pub mod download;
pub mod encoding;
pub mod error;
pub mod job;
pub mod req;
pub mod terminal;
pub mod text;
pub mod transport;
pub mod units;
pub mod upload;
