pub mod error_code;
