//! A small key-value document store: commands, their byte encoding, a
//! write-ahead log, an in-memory store and the framed protocol around them.

pub mod checksum;
pub mod cli;
pub mod client;
pub mod codec;
pub mod collection;
pub mod command;
pub mod database;
pub mod dispatch;
pub mod document;
pub mod endian;
pub mod executor;
pub mod network;
pub mod response;
pub mod server;
pub mod text;
pub mod varint;
pub mod wal;
