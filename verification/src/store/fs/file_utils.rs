use vstd::prelude::*;
use crate::api::error_code;
use crate::message::db_error::{DbError, is_error, one_param};
use crate::util::chars::str_concat;

verus! {

/// Whether `x` is a name that every platform reads as one plain path
/// component: not empty, and without `/`, `\\` or `:`.
pub open spec fn plain_name(x: Seq<char>) -> bool {
    x.len() > 0 && forall|k: int| 0 <= k < x.len() ==> #[trigger] x[k] != '/' && x[k] != '\\' && x[k] != ':'
}

/// What every platform agrees on of whether `path` is absolute (`r`): the
/// empty path and a plain name (no `/`, `\\` or `:`, so neither a root nor a
/// prefix) are not absolute.
pub open spec fn absolute_claims(path: Seq<char>, r: bool) -> bool {
    &&& path.len() == 0 ==> !r
    &&& plain_name(path) ==> !r
}

/// Whether `file_name` is an absolute path, as `std::path::Path::is_absolute`
/// decides on this platform; see `absolute_claims` for what is claimed of it.
/// What else makes a path absolute differs between platforms (`/db` is
/// absolute on Unix, not on Windows), and nothing more is stated.
#[verifier::external_body]
pub fn is_absolute(file_name: &str) -> (r: bool)
    ensures
        absolute_claims(file_name@, r),
{
    std::path::Path::new(file_name).is_absolute()
}

/// The path `a`, then `n` times `/`, then `b`.
pub open spec fn joined(a: Seq<char>, n: nat, b: Seq<char>) -> Seq<char> {
    a + Seq::new(n, |i: int| '/') + b
}

/// The path `/b`.
pub open spec fn rooted(b: Seq<char>) -> Seq<char> {
    "/"@ + b
}

/// Whether `body` is one or more plain names (see `plain_name`) separated
/// by one or more `/`, with no `/` at either end, and none of the names `.`.
pub open spec fn names_path(body: Seq<char>) -> bool {
    &&& body.len() > 0
    &&& body[0] != '/'
    &&& body[body.len() - 1] != '/'
    &&& forall|k: int| 0 <= k < body.len() ==> #[trigger] body[k] != '\\' && body[k] != ':'
    &&& forall|k: int|
        0 <= k < body.len() && #[trigger] body[k] == '.' ==> !((k == 0 || body[k - 1] == '/') && (k + 1
            == body.len() || body[k + 1] == '/'))
}

/// Whether `a` is a directory path that every platform reads alike: `.`
/// alone, or names (see `names_path`) after an optional leading `/` or `./`.
pub open spec fn dir_path(a: Seq<char>) -> bool {
    ||| a == "."@
    ||| names_path(a)
    ||| a.len() > 0 && a[0] == '/' && names_path(a.subrange(1, a.len() as int))
    ||| a.len() > 1 && a[0] == '.' && a[1] == '/' && names_path(a.subrange(2, a.len() as int))
}

/// What every platform agrees on of the parent `r` of `path` (`None` for no
/// parent): the empty path and the root `/` have none; a plain name other
/// than `.` and `..` has the empty parent, and the same name after `/` has
/// the parent `/`; and `a`, one or more `/`, then `b`, where `a` is a
/// directory path (see `dir_path`) and `b` a plain name other than `.` and
/// `..`, has the parent `a` as written.
pub open spec fn parent_claims(path: Seq<char>, r: Option<Seq<char>>) -> bool {
    &&& (path.len() == 0 || path == "/"@) ==> r is None
    &&& plain_name(path) && path != "."@ && path != ".."@ ==> r == Some(Seq::<char>::empty())
    &&& forall|b: Seq<char>|
        #![trigger rooted(b)]
        path == rooted(b) && plain_name(b) && b != "."@ && b != ".."@ ==> r == Some("/"@)
    &&& forall|a: Seq<char>, n: nat, b: Seq<char>|
        #![trigger joined(a, n, b)]
        path == joined(a, n, b) && n >= 1 && dir_path(a) && plain_name(b) && b != "."@ && b != ".."@ ==> r
            == Some(a)
}

/// The parent of `path`, as `std::path::Path::parent` gives it, as text; see
/// `parent_claims` for what is claimed of it (on every platform `/`
/// separates components, repeated separators count as one, a leading `.`
/// stays, and such paths have no prefix). Which other paths have a parent,
/// and which, differs between platforms or rests on finer rules of the
/// standard library, and is not stated.
#[verifier::external_body]
fn path_parent(path: &str) -> (r: Option<String>)
    ensures
        parent_claims(
            path@,
            match r {
                Some(p) => Some(p@),
                None => None,
            },
        ),
{
    match std::path::Path::new(path).parent() {
        Some(p) => Some(p.to_string_lossy().into_owned()),
        None => None,
    }
}

/// The parent of `path` (see `path_parent` and `parent_claims`). A path
/// without one (such as the empty path or `/`) is the error
/// `GENERAL_ERROR_1`.
pub fn get_parent(path: &str) -> (r: Result<String, DbError>)
    ensures
        parent_claims(
            path@,
            match r {
                Ok(p) => Some(p@),
                Err(_) => None,
            },
        ),
        r matches Err(e) ==> is_error(e, error_code::GENERAL_ERROR_1, seq!["can't get the parent path :"@ + path@]),
{
    match path_parent(path) {
        Some(p) => Ok(p),
        None => {
            let text = str_concat("can't get the parent path :", path);
            Err(DbError::get(error_code::GENERAL_ERROR_1, one_param(text.as_str())))
        },
    }
}

} // verus!
