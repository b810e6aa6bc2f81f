pub mod file_lock;
pub mod file_lock_method;
pub mod fs;
