pub mod byte_buffer;
pub mod h2_rust_constant;
pub mod h2_rust_type;
pub mod h2_rust_utils;
pub mod properties;
