//! Core of an SSH/SFTP session multiplexer: the rules that decide what a
//! session does, kept apart from the sockets that carry them out.
//!
//! A front end asks for sessions by `connect::ConnectParams`. `connect`
//! turns them into a plan; `manager` keeps the live sessions by channel
//! id; `channel` lays out what a send, a resize and a shutdown do to a
//! session; `pump` is the reader that drains a session into events.
//! `sftp`, `path`, `permissions`, `order`, `verbs` and `transfer` hold what
//! the SFTP verbs compute. `store` and `secrets` give saved profiles their
//! form on disk. Every failure is an `error::SshError`.
//!
//! Nothing here opens a socket or a file: each module takes what was read
//! and says what to do next.

pub mod channel;
pub mod connect;
pub mod error;
pub mod manager;
pub mod order;
pub mod path;
pub mod permissions;
pub mod pump;
pub mod secrets;
pub mod sftp;
pub mod store;
pub mod text;
pub mod transfer;
pub mod verbs;
