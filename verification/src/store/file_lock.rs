use vstd::prelude::*;
use crate::api::error_code;
use crate::message::db_error::{DbError, is_error, one_param};
use crate::store::file_lock_method;
use crate::util::chars::{eq_ignore_ascii_case, str_eq_ignore_ascii_case};

verus! {

/// A lock on a database file.
pub struct FileLock {}

/// The locking method that `method` names, in any ASCII case: `FILE` (also
/// for an empty name), `NO`, `SOCKET` or `FS`. Any other name is the error
/// `UNSUPPORTED_LOCK_METHOD_1`.
pub open spec fn lock_method_of(method: Seq<char>) -> Option<i8> {
    if method.len() == 0 || eq_ignore_ascii_case(method, "FILE"@) {
        Some(file_lock_method::FILE)
    } else if eq_ignore_ascii_case(method, "NO"@) {
        Some(file_lock_method::NO)
    } else if eq_ignore_ascii_case(method, "SOCKET"@) {
        Some(file_lock_method::SOCKET)
    } else if eq_ignore_ascii_case(method, "FS"@) {
        Some(file_lock_method::FS)
    } else {
        None
    }
}

/// The locking method that `method` names; see `lock_method_of`.
pub fn get_file_lock_method(method: &str) -> (r: Result<i8, DbError>)
    ensures
        match lock_method_of(method@) {
            Some(m) => r == Ok::<i8, DbError>(m),
            None => r matches Err(e) && is_error(e, error_code::UNSUPPORTED_LOCK_METHOD_1, seq![method@]),
        },
{
    if method.unicode_len() == 0 || str_eq_ignore_ascii_case(method, "FILE") {
        return Ok(file_lock_method::FILE);
    }
    if str_eq_ignore_ascii_case(method, "NO") {
        return Ok(file_lock_method::NO);
    }
    if str_eq_ignore_ascii_case(method, "SOCKET") {
        return Ok(file_lock_method::SOCKET);
    }
    if str_eq_ignore_ascii_case(method, "FS") {
        return Ok(file_lock_method::FS);
    }
    Err(DbError::get(error_code::UNSUPPORTED_LOCK_METHOD_1, one_param(method)))
}

} // verus!
