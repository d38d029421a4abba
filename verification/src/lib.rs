//! Verified core of a small file-transfer service: message framing, chunked
//! streaming, at-rest encryption of stored files and the decision logic of
//! the server and of the two kinds of client.

pub mod crypto;
pub mod stream;
pub mod messages;
pub mod server;
pub mod client;
pub mod protocol;
