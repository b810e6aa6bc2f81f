use vstd::prelude::*;

verus! {

/// The block size of an encrypted file: its pages are a multiple of it.
pub const BLOCK_SIZE: i32 = 4096;

} // verus!
