use vstd::prelude::*;
use crate::api::error_code;
use crate::engine::connection_info::{ConnectionInfo, ConnectionInfoView};
use crate::engine::constant;
use crate::engine::db_settings::text_or;
use crate::message::db_error::{DbError, is_error, one_param};
use crate::util::chars::str_concat;
use crate::util::utils::parse_bool_value;

verus! {

/// The answer to a database that was not found: with `IFEXISTS` the error
/// `DATABASE_NOT_FOUND_WITH_IF_EXISTS_1`, else where creation is forbidden the
/// error `REMOTE_DATABASE_NOT_FOUND_1`, both naming `name`; otherwise the
/// database may be created.
pub fn throw_not_found(if_exist: bool, forbid_creation: bool, name: &str) -> (r: Result<(), DbError>)
    ensures
        if_exist ==> (r matches Err(e) && is_error(e, error_code::DATABASE_NOT_FOUND_WITH_IF_EXISTS_1, seq![name@])),
        !if_exist && forbid_creation ==> (r matches Err(e) && is_error(
            e,
            error_code::REMOTE_DATABASE_NOT_FOUND_1,
            seq![name@],
        )),
        !if_exist && !forbid_creation ==> r is Ok,
{
    if if_exist {
        return Err(DbError::get(error_code::DATABASE_NOT_FOUND_WITH_IF_EXISTS_1, one_param(name)));
    } else if forbid_creation {
        return Err(DbError::get(error_code::REMOTE_DATABASE_NOT_FOUND_1, one_param(name)));
    }
    Ok(())
}

/// What a session is opened with, taken out of the settings: whether the
/// database must exist, whether creating it is forbidden, whether unknown
/// settings are ignored, the cipher, and the statements to run first.
pub struct SessionOptions {
    pub if_exist: bool,
    pub forbid_creation: bool,
    pub ignore_unknown_setting: bool,
    pub cipher: String,
    pub init: String,
}

/// Takes the options of a session out of the settings of `connection_info`:
/// `IFEXIST`, `FORBID_CREATION` and `IGNORE_UNKNOWN_SETTINGS` as booleans
/// (false where missing), `CIPHER` and `INIT` as texts (empty where missing).
pub fn open_session(connection_info: &mut ConnectionInfo) -> (r: Result<SessionOptions, DbError>)
    requires
        old(connection_info).wf(),
    ensures
        final(connection_info).wf(),
        ({
            let m = old(connection_info).prop.map();
            &&& r matches Ok(o) && o.if_exist == parse_bool_value(text_or(m, "IFEXIST"@, ""@), false)
                && o.forbid_creation == parse_bool_value(text_or(m, "FORBID_CREATION"@, ""@), false)
                && o.ignore_unknown_setting == parse_bool_value(
                text_or(m, "IGNORE_UNKNOWN_SETTINGS"@, ""@),
                false,
            ) && o.cipher@ == text_or(m, "CIPHER"@, ""@) && o.init@ == text_or(m, "INIT"@, ""@)
            &&& final(connection_info).view_of() == (ConnectionInfoView {
                prop: m.remove("IFEXIST"@).remove("FORBID_CREATION"@).remove("IGNORE_UNKNOWN_SETTINGS"@).remove(
                    "CIPHER"@,
                ).remove("INIT"@),
                ..old(connection_info).view_of()
            })
        }),
{
    let if_exist = connection_info.remove_property_bool("IFEXIST", false)?;
    let forbid_creation = connection_info.remove_property_bool("FORBID_CREATION", false)?;
    let ignore_unknown_setting = connection_info.remove_property_bool("IGNORE_UNKNOWN_SETTINGS", false)?;
    let cipher = connection_info.remove_property_str("CIPHER", "");
    let init = connection_info.remove_property_str("INIT", "");
    proof {
        reveal_strlit("IFEXIST");
        reveal_strlit("FORBID_CREATION");
        reveal_strlit("IGNORE_UNKNOWN_SETTINGS");
        reveal_strlit("CIPHER");
        reveal_strlit("INIT");
        assert("IFEXIST"@.len() == 7 && "FORBID_CREATION"@.len() == 15);
        assert("IGNORE_UNKNOWN_SETTINGS"@.len() == 23 && "CIPHER"@.len() == 6 && "INIT"@.len() == 4);
    }
    Ok(SessionOptions { if_exist, forbid_creation, ignore_unknown_setting, cipher, init })
}

/// What the file system tells of the files of a persistent database: whether
/// its store file exists, whether its file in the old format exists, and
/// whether the store file may be written.
pub struct DatabaseFiles {
    pub mv_file_exists: bool,
    pub old_file_exists: bool,
    pub mv_file_writable: bool,
}

/// The name of the store file of the database at `database_path`, and the
/// name of its file in the old format.
pub fn database_file_names(database_path: &str) -> (r: (String, String))
    ensures
        r.0@ == database_path@ + constant::SUFFIX_MV_FILE@,
        r.1@ == database_path@ + constant::SUFFIX_MV_FILE@ + constant::SUFFIX_OLD_DATABASE_FILE@,
{
    let mv = str_concat(database_path, constant::SUFFIX_MV_FILE);
    let old = str_concat(mv.as_str(), constant::SUFFIX_OLD_DATABASE_FILE);
    (mv, old)
}

/// The error for a database at `path` that is not there, where one is owed;
/// see `throw_not_found`.
pub open spec fn not_found_error(if_exist: bool, forbid_creation: bool, path: Seq<char>) -> Option<(i32, Seq<Seq<char>>)> {
    if if_exist {
        Some((error_code::DATABASE_NOT_FOUND_WITH_IF_EXISTS_1, seq![path]))
    } else if forbid_creation {
        Some((error_code::REMOTE_DATABASE_NOT_FOUND_1, seq![path]))
    } else {
        None
    }
}

/// What the files of the database at `path` decide, with these settings:
/// the error that opening it fails with, if any, and the settings after.
/// A database in memory is never there before. A persistent one without a
/// store file is not there, and where the store is not named in `MV_STORE`,
/// a file in the old format is an error of its own; one whose store file
/// cannot be written is opened for reading its data only.
pub open spec fn files_outcome(
    persistent: bool,
    props: Map<Seq<char>, Seq<char>>,
    path: Seq<char>,
    if_exist: bool,
    forbid_creation: bool,
    files: DatabaseFiles,
) -> (Option<(i32, Seq<Seq<char>>)>, Map<Seq<char>, Seq<char>>) {
    let not_found = not_found_error(if_exist, forbid_creation, path);
    if !persistent {
        (not_found, props)
    } else if !files.mv_file_exists {
        if not_found is Some {
            (not_found, props)
        } else if !props.contains_key("MV_STORE"@) && files.old_file_exists {
            (
                Some(
                    (
                        error_code::FILE_VERSION_ERROR_1,
                        seq![
                            "old database: "@ + path + constant::SUFFIX_MV_FILE@ + constant::SUFFIX_OLD_DATABASE_FILE@
                                + " - please convert the database to a SQL script and re-create it."@,
                        ],
                    ),
                ),
                props,
            )
        } else {
            (None, props)
        }
    } else if !files.mv_file_writable {
        (None, props.insert("ACCESS_MODE_DATA"@, "r"@))
    } else {
        (None, props)
    }
}

/// Checks the files of the database at `database_path` before it is opened;
/// see `files_outcome`.
pub fn check_database_files(
    connection_info: &mut ConnectionInfo,
    database_path: &str,
    if_exist: bool,
    forbid_creation: bool,
    files: &DatabaseFiles,
) -> (r: Result<(), DbError>)
    requires
        old(connection_info).wf(),
    ensures
        final(connection_info).wf(),
        ({
            let (x, m) = files_outcome(
                old(connection_info).persistent,
                old(connection_info).prop.map(),
                database_path@,
                if_exist,
                forbid_creation,
                *files,
            );
            &&& final(connection_info).view_of() == (ConnectionInfoView { prop: m, ..old(connection_info).view_of() })
            &&& match x {
                None => r is Ok,
                Some(e0) => r matches Err(e) && is_error(e, e0.0, e0.1),
            }
        }),
{
    if !connection_info.persistent {
        return throw_not_found(if_exist, forbid_creation, database_path);
    }
    if !files.mv_file_exists {
        throw_not_found(if_exist, forbid_creation, database_path)?;
        let value = connection_info.get_property("MV_STORE");
        if value.is_none() && files.old_file_exists {
            let (_, old_name) = database_file_names(database_path);
            let message = str_concat(
                str_concat("old database: ", old_name.as_str()).as_str(),
                " - please convert the database to a SQL script and re-create it.",
            );
            proof {
                assert(message@ =~= "old database: "@ + database_path@ + constant::SUFFIX_MV_FILE@
                    + constant::SUFFIX_OLD_DATABASE_FILE@
                    + " - please convert the database to a SQL script and re-create it."@);
            }
            return Err(DbError::get(error_code::FILE_VERSION_ERROR_1, one_param(message.as_str())));
        }
        return Ok(());
    }
    if !files.mv_file_writable {
        proof {
            reveal_strlit("r");
        }
        connection_info.set_property("ACCESS_MODE_DATA", "r");
    }
    Ok(())
}

/// What opening a session goes on with: the database already held for its
/// path, or a database to open.
pub enum SessionStep {
    UseHeld,
    Open,
}

/// The decisions of opening a session on `connection_info`, whose database is
/// at `database_path` (see `ConnectionInfo::get_database_path`):
/// `NO_UPGRADE` is taken out of the settings; where the database is held
/// already (`holder_has_database`) and no new one is asked for, that one is
/// used; otherwise the files of the database are checked (see
/// `check_database_files`) before it is opened.
pub fn open_session1(
    connection_info: &mut ConnectionInfo,
    if_exist: bool,
    force_creation: bool,
    database_path: &str,
    holder_has_database: bool,
    files: &DatabaseFiles,
) -> (r: Result<SessionStep, DbError>)
    requires
        old(connection_info).wf(),
    ensures
        final(connection_info).wf(),
        ({
            let m = old(connection_info).prop.map().remove("NO_UPGRADE"@);
            let open_new = parse_bool_value("OPEN_NEW"@, false);
            let (x, m2) = files_outcome(
                old(connection_info).persistent,
                m,
                database_path@,
                if_exist,
                force_creation,
                *files,
            );
            if holder_has_database && !open_new {
                &&& r matches Ok(SessionStep::UseHeld)
                &&& final(connection_info).view_of() == (ConnectionInfoView { prop: m, ..old(connection_info).view_of() })
            } else {
                &&& final(connection_info).view_of() == (ConnectionInfoView { prop: m2, ..old(connection_info).view_of() })
                &&& match x {
                    None => r matches Ok(SessionStep::Open),
                    Some(e0) => r matches Err(e) && is_error(e, e0.0, e0.1),
                }
            }
        }),
{
    let _ = connection_info.remove_property_bool("NO_UPGRADE", false);
    let open_new = connection_info.get_property_bool("OPEN_NEW", false)?;
    if holder_has_database && !open_new {
        return Ok(SessionStep::UseHeld);
    }
    check_database_files(connection_info, database_path, if_exist, force_creation, files)?;
    Ok(SessionStep::Open)
}

} // verus!
