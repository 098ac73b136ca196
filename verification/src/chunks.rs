//! Storing the chunks of data that the section is responsible for.

pub mod chunk_storage;
pub mod storage_laws;
