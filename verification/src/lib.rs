use vstd::prelude::*;

pub mod api;
pub mod command;
pub mod db;
pub mod engine;
pub mod errors;
pub mod h2_rust_common;
pub mod jdbc;
pub mod message;
pub mod mode;
pub mod mvstore;
pub mod result;
pub mod store;
pub mod util;

verus! {

} // verus!
