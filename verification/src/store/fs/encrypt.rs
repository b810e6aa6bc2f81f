pub mod file_encrypt;
