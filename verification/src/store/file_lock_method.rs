use vstd::prelude::*;

verus! {

/// This locking method means no locking is used at all.
pub const NO: i8 = 1;

/// This locking method means the cooperative file locking protocol should be used.
pub const FILE: i8 = 2;

/// This locking method means a socket is created on the given machine.
pub const SOCKET: i8 = 3;

/// Use the file system to lock the file; don't use a separate lock file.
pub const FS: i8 = 7;

} // verus!
