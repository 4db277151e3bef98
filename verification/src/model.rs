pub mod config;
pub mod kv_cache;
pub mod weights;
