pub mod encrypt;
pub mod file_utils;
