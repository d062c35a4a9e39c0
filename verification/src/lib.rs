//! Core logic of a tiered transaction-streaming service: a manager tier that
//! caches and uploads ordered transaction batches, and a live tier that serves
//! per-client streams out of a ring-buffer cache.

pub mod connection_manager;
pub mod data_manager;
pub mod file_entry;
pub mod file_store;
pub mod live_cache;
pub mod live_data_service;
pub mod manager_cache;
pub mod message_metadata;
pub mod metadata_manager;
pub mod paths;
pub mod peer_table;
pub mod ring;
pub mod service;
pub mod service_info;
pub mod status;
pub mod storage_format;
pub mod streamer;
pub mod transaction;
pub mod uploader;
pub mod varint;
