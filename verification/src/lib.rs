//! The core of a section node: the storage of chunks, the accounting of rewards, and the
//! sharing of rewards among the nodes of the section.
//!
//! The parts of the core take in events and return duties: descriptions of what is to be
//! done next. They write to no disk and send no message themselves. What the disk
//! answered where a chunk is written or removed is handed to them as a value.

pub mod blob;
pub mod capacity;
pub mod chunk_files;
pub mod chunk_store;
pub mod chunks;
pub mod error;
pub mod event_mapping;
pub mod farming;
pub mod keys;
pub mod messaging;
pub mod name;
pub mod name_map;
pub mod node;
pub mod node_ops;
pub mod section_funds;
pub mod token;
