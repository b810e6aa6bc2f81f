pub mod cache;
pub mod chunk;
pub mod data_utils;
pub mod file_store;
pub mod mv_map;
pub mod mv_store;
pub mod mv_store_tool;
pub mod page;
pub mod root_reference;
pub mod store_config;
pub mod types;
