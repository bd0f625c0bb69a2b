//! Verified core of the ebobo arena: device check-ins, fingerprint
//! authentication, matchmaking and the client's request and view decisions.
pub mod client;
pub mod seqs;
pub mod server;
pub mod shared;
