pub mod connection_info;
pub mod constant;
pub mod database;
pub mod db_settings;
pub mod engine;
pub mod mode;
pub mod session_remote;
