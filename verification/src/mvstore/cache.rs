pub mod cache_long_key_lirs;
