//! Short-lived file links and resumable uploads over a confined directory tree.
//!
//! The crate holds the rules of a small file server: how a path sent by a
//! client is made safe, how link tokens are issued, looked up and expired, and
//! how an upload session answers the frames of its channel. Every function is
//! stated by a contract and proved against it, but for the few that call into
//! another crate: those say what they take on trust.
//!
//! The crate reads no clock, no file and no socket. Instants are numbers that
//! the caller hands in, what was found on disk is told by the caller, and
//! file operations are handed out to the caller to carry out.

pub mod api;
pub mod control;
pub mod listdir;
pub mod models;
pub mod safe_path;
pub mod state;
pub mod token;
pub mod user;
