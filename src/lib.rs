//! Reads structured log records, turns them into GELF messages, compresses
//! them and splits them into UDP datagrams for a Graylog collector.
pub mod level;
pub mod text;
pub mod json;
pub mod errors;
pub mod message;
pub mod wire;
pub mod compression;
pub mod chunked;
pub mod config;
pub mod processing;
pub mod ingest;
pub mod cli;

pub use chunked::{ChunkSize, ChunkedMessage};
pub use compression::MessageCompression;
pub use errors::Error;
pub use level::{LevelMsg, LevelSystem};
pub use message::Message;
pub use wire::{OptFieldsIterator, WireMessage};
