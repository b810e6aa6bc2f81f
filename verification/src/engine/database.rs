use vstd::prelude::*;
use vstd::utf8::*;
use vstd::string::StringSliceAdditionalSpecFns;
use crate::api::error_code;
use crate::engine::connection_info::{
    ConnectionInfo,
    ConnectionInfoView,
    DatabasePath,
    int_property,
    resolve_database_path,
    str_view,
};
use crate::engine::constant;
use crate::engine::db_settings::{DbSettings, DbSettingsView, db_settings_result, text_or};
use crate::engine::connection_info::db_settings_of;
use crate::engine::mode::{Mode, is_regular_mode, mode_found};
use crate::message::db_error::{DbError, is_error, one_param};
use crate::mode::default_null_ordering::DefaultNullOrdering;
use crate::result::sort_orders;
use crate::store::file_lock::{get_file_lock_method, lock_method_of};
use crate::store::fs::file_utils::{absolute_claims, is_absolute};
use crate::store::file_lock_method;
use crate::store::fs::encrypt::file_encrypt;
use crate::util::chars::{
    chars_eq,
    chars_of,
    chars_slice,
    is_prefix,
    str_concat,
    str_eq,
    str_starts_with,
    string_of,
    to_owned_string,
};
use crate::util::numfmt::{decimal_of, i32_to_decimal};
use crate::util::string_utils::{
    lower_case_of,
    to_lower_english,
    to_upper_english,
    truncate_string,
    upper_case_of,
};
use crate::util::utils::parse_bool_value;

verus! {

/// Whether `c` separates the parts of a database path: `/`, `\` or `:`.
pub open spec fn is_name_separator(c: char) -> bool {
    c == '/' || c == '\\' || c == ':'
}

/// The index of the last separator in `path`, -1 where there is none.
pub open spec fn last_separator(path: Seq<char>) -> int
    decreases path.len(),
{
    if path.len() == 0 {
        -1
    } else if is_name_separator(path.last()) {
        path.len() - 1
    } else {
        last_separator(path.drop_last())
    }
}

/// The short name of a database before it is cut: the part of its path after
/// the last separator (`UNNAMED` where that part is empty), in upper case where
/// names are upper case, else in lower case where they are lower case.
pub open spec fn short_name_source(path: Seq<char>, to_upper: bool, to_lower: bool) -> Seq<char> {
    let a = last_separator(path) + 1;
    let segment = if a == path.len() {
        "UNNAMED"@
    } else {
        path.subrange(a, path.len() as int)
    };
    if to_upper {
        upper_case_of(segment)
    } else if to_lower {
        lower_case_of(segment)
    } else {
        segment
    }
}

/// Whether the short name `source` can be cut to the longest identifier: it
/// is not longer, in UTF-8 bytes, or a character starts where it is cut.
pub open spec fn short_name_cuts(source: Seq<char>) -> bool {
    encode_utf8(source).len() > constant::MAX_IDENTIFIER_LENGTH ==> is_char_boundary(
        encode_utf8(source),
        constant::MAX_IDENTIFIER_LENGTH as int,
    )
}

/// Whether `name` is `source` cut to the longest identifier, in UTF-8 bytes.
pub open spec fn is_cut_name(source: Seq<char>, name: Seq<char>) -> bool {
    if encode_utf8(source).len() > constant::MAX_IDENTIFIER_LENGTH {
        encode_utf8(name) == encode_utf8(source).subrange(0, constant::MAX_IDENTIFIER_LENGTH as int)
    } else {
        name == source
    }
}

/// The default placements of NULLs of the ordering named `name`, if any.
pub open spec fn null_ordering_named(name: Seq<char>) -> Option<(i32, i32)> {
    if name == "LOW"@ {
        Some((sort_orders::NULLS_FIRST, sort_orders::NULLS_LAST))
    } else if name == "HIGH"@ {
        Some((sort_orders::NULLS_LAST, sort_orders::NULLS_FIRST))
    } else if name == "LAST"@ {
        Some((sort_orders::NULLS_LAST, sort_orders::NULLS_LAST))
    } else if name == "FIRST"@ {
        Some((sort_orders::NULLS_FIRST, sort_orders::NULLS_FIRST))
    } else {
        None
    }
}

/// The path of the database from its connection description and the real path
/// of its file (see `ConnectionInfo::get_database_path`): the path, or the
/// file whose real path is needed (`Ok(Err(file))`), or an error; with the
/// resolved path that the description keeps.
pub open spec fn database_path_step(ci: ConnectionInfoView, real_file: Option<Seq<char>>, name_is_absolute: bool) -> (
    Result<Result<Seq<char>, Seq<char>>, (i32, Seq<Seq<char>>)>,
    Seq<char>,
) {
    if !ci.persistent {
        (Ok(Ok(ci.name)), ci.name_normalized)
    } else if ci.name_normalized.len() > 0 {
        (Ok(Ok(ci.name_normalized)), ci.name_normalized)
    } else {
        match resolve_database_path(ci.name, ci.original_url, real_file, name_is_absolute) {
            Ok(Some(p)) => (Ok(Ok(p)), p),
            Ok(None) => (Ok(Err(ci.name + constant::SUFFIX_MV_FILE@)), ci.name_normalized),
            Err(x) => (Err(x), ci.name_normalized),
        }
    }
}

/// What opening a database does to the connection description `old`,
/// leaving `new`, and gives back, where `real_file` is the real path of the
/// database file if known and `name_is_absolute` whether the database name is
/// an absolute path; see `database_outcome`.
pub open spec fn database_opened(
    old: ConnectionInfo,
    new: ConnectionInfo,
    cipher: Seq<char>,
    real_file: Option<Seq<char>>,
    name_is_absolute: bool,
    r: Option<Result<DatabaseOpening, DbError>>,
) -> bool {
    let (o, m, nn) = database_outcome(old.view_of(), cipher, real_file, name_is_absolute);
    &&& new.prop.map() == m
    &&& new.name_normalized@ == nn
    &&& match o {
        DatabaseOutcome::Opened(v) => r matches Some(Ok(DatabaseOpening::Opened(d))) && d.is_view(v),
        DatabaseOutcome::RealPathNeeded(f) => r matches Some(Ok(DatabaseOpening::RealPathNeeded(g)))
            && g@ == f,
        DatabaseOutcome::Failed(x) => r matches Some(Err(e)) && is_error(e, x.0, x.1),
        DatabaseOutcome::NameNotCut => r is None,
    }
    &&& new.url == old.url
    &&& new.original_url == old.original_url
    &&& new.user == old.user
    &&& new.name == old.name
    &&& new.persistent == old.persistent
    &&& new.remote == old.remote
    &&& new.ssl == old.ssl
    &&& new.unnamed_in_memory == old.unnamed_in_memory
    &&& new.user_password_hash == old.user_password_hash
    &&& new.file_password_hash == old.file_password_hash
}

/// The view of an opened database.
pub struct DatabaseView {
    pub db_settings: DbSettingsView,
    pub persistent: bool,
    pub file_password_hash: Option<Seq<u8>>,
    pub database_path: Seq<char>,
    pub max_length_inplace_lob: i32,
    pub cipher: Seq<char>,
    pub auto_server_mode: bool,
    pub auto_server_port: i32,
    pub page_size: i32,
    pub short_name_source: Seq<char>,
    pub read_only: bool,
    pub file_lock_method: i8,
    pub database_url: Seq<char>,
    pub default_null_ordering: Option<(i32, i32)>,
    pub cache_type: Seq<char>,
    pub ignore_catalogs: bool,
    pub lock_mode: i32,
}

/// What opening a database gives.
pub enum DatabaseOutcome {
    /// The database.
    Opened(DatabaseView),
    /// The real path of this file is needed first.
    RealPathNeeded(Seq<char>),
    /// The error.
    Failed((i32, Seq<Seq<char>>)),
    /// The short name cannot be cut to the longest identifier.
    NameNotCut,
}

/// The part of opening a database after its page size is known: the access
/// mode, the file lock method, the mode (`MODE`, taken out of the settings),
/// the default NULL ordering (`DEFAULT_NULL_ORDERING`, taken out), the cache
/// type (`CACHE_TYPE`, taken out) and the lock mode, and the checks of the
/// automatic server mode. Gives the outcome and the settings left.
pub open spec fn database_outcome_rest(
    ci: ConnectionInfoView,
    cipher: Seq<char>,
    settings: DbSettingsView,
    path: Seq<char>,
    auto_server: bool,
    port: i32,
    page_size: i32,
) -> (DatabaseOutcome, Map<Seq<char>, Seq<char>>) {
    let m = ci.prop;
    let read_only = lower_case_of(text_or(m, "ACCESS_MODE_DATA"@, "rw"@)) == "r"@;
    let lock_name = text_or(m, "FILE_LOCK"@, ""@);
    let method = if lock_name.len() > 0 {
        lock_method_of(lock_name)
    } else if auto_server {
        Some(file_lock_method::FILE)
    } else {
        Some(file_lock_method::FS)
    };
    match method {
        None => (DatabaseOutcome::Failed((error_code::UNSUPPORTED_LOCK_METHOD_1, seq![lock_name])), m),
        Some(method) => {
            let mode_name = text_or(m, "MODE"@, ""@);
            let m1 = m.remove("MODE"@);
            if mode_name.len() > 0 && !mode_found(mode_name) {
                (DatabaseOutcome::Failed((error_code::UNKNOWN_MODE_1, seq![mode_name])), m1)
            } else {
                let ordering_name = text_or(m1, "DEFAULT_NULL_ORDERING"@, ""@);
                let m2 = m1.remove("DEFAULT_NULL_ORDERING"@);
                if ordering_name.len() > 0 && null_ordering_named(upper_case_of(ordering_name)) is None {
                    (
                        DatabaseOutcome::Failed(
                            (error_code::INVALID_VALUE_2, seq![ordering_name, "DEFAULT_NULL_ORDERING"@]),
                        ),
                        m2,
                    )
                } else if auto_server && !settings.db_close_on_exit {
                    (
                        DatabaseOutcome::Failed(
                            (
                                error_code::FEATURE_NOT_SUPPORTED_1,
                                seq!["AUTO_SERVER=TRUE && DB_CLOSE_ON_EXIT=FALSE"@],
                            ),
                        ),
                        m2,
                    )
                } else {
                    let cache_type = upper_case_of(text_or(m2, "CACHE_TYPE"@, constant::CACHE_TYPE_DEFAULT@));
                    let m3 = m2.remove("CACHE_TYPE"@);
                    match int_property(m3, "LOCK_MODE"@, constant::DEFAULT_LOCK_MODE) {
                        Err(x) => (DatabaseOutcome::Failed(x), m3),
                        Ok(lock_mode) => if auto_server && (read_only || !ci.persistent || method
                            == file_lock_method::NO || method == file_lock_method::FS) {
                            (
                                DatabaseOutcome::Failed(
                                    (
                                        error_code::FEATURE_NOT_SUPPORTED_1,
                                        seq![
                                            "AUTO_SERVER=TRUE && (readOnly || inMemory || FILE_LOCK=NO || FILE_LOCK=FS)"@,
                                        ],
                                    ),
                                ),
                                m3,
                            )
                        } else {
                            (
                                DatabaseOutcome::Opened(
                                    DatabaseView {
                                        db_settings: settings,
                                        persistent: ci.persistent,
                                        file_password_hash: ci.file_password_hash,
                                        database_path: path,
                                        max_length_inplace_lob: constant::DEFAULT_MAX_LENGTH_INPLACE_LOB,
                                        cipher,
                                        auto_server_mode: auto_server,
                                        auto_server_port: port,
                                        page_size,
                                        short_name_source: short_name_source(
                                            path,
                                            settings.database_to_upper,
                                            settings.database_to_lower,
                                        ),
                                        read_only,
                                        file_lock_method: method,
                                        database_url: ci.url,
                                        default_null_ordering: if ordering_name.len() > 0 {
                                            null_ordering_named(upper_case_of(ordering_name))
                                        } else {
                                            None
                                        },
                                        cache_type,
                                        ignore_catalogs: parse_bool_value("IGNORE_CATALOGS"@, false),
                                        lock_mode,
                                    },
                                ),
                                m3,
                            )
                        },
                    }
                }
            }
        },
    }
}

/// What opening a database from the connection description `ci` gives, with
/// the cipher `cipher` and the real path `real_file` of the database file if
/// it is known; with the settings and the resolved path that the description
/// keeps.
///
/// The settings of the database are read first, then its path. The boolean
/// properties `AUTO_SERVER` and `IGNORE_CATALOGS` are read from the text of
/// their names (see `ConnectionInfo::get_property_bool`), so they are false.
/// The page size must be a multiple of the block size of encryption where
/// there is a cipher.
pub open spec fn database_outcome(
    ci: ConnectionInfoView,
    cipher: Seq<char>,
    real_file: Option<Seq<char>>,
    name_is_absolute: bool,
) -> (
    DatabaseOutcome,
    Map<Seq<char>, Seq<char>>,
    Seq<char>,
) {
    let m = ci.prop;
    match db_settings_result(db_settings_of(m)) {
        Err(x) => (DatabaseOutcome::Failed(x), m, ci.name_normalized),
        Ok(settings) => {
            let (path_step, nn) = database_path_step(ci, real_file, name_is_absolute);
            match path_step {
                Err(x) => (DatabaseOutcome::Failed(x), m, nn),
                Ok(Err(file)) => (DatabaseOutcome::RealPathNeeded(file), m, nn),
                Ok(Ok(path)) => {
                    let auto_server = parse_bool_value("AUTO_SERVER"@, false);
                    match int_property(m, "AUTO_SERVER_PORT"@, 0) {
                        Err(x) => (DatabaseOutcome::Failed(x), m, nn),
                        Ok(port) => match int_property(m, "PAGE_SIZE"@, constant::DEFAULT_PAGE_SIZE) {
                            Err(x) => (DatabaseOutcome::Failed(x), m, nn),
                            Ok(page_size) => if !short_name_cuts(
                                short_name_source(path, settings.database_to_upper, settings.database_to_lower),
                            ) {
                                (DatabaseOutcome::NameNotCut, m, nn)
                            } else if cipher.len() > 0 && page_size % file_encrypt::BLOCK_SIZE != 0 {
                                (
                                    DatabaseOutcome::Failed(
                                        (
                                            error_code::FEATURE_NOT_SUPPORTED_1,
                                            seq!["CIPHER && PAGE_SIZE="@ + decimal_of(page_size as int)],
                                        ),
                                    ),
                                    m,
                                    nn,
                                )
                            } else {
                                let (o, m3) = database_outcome_rest(
                                    ci,
                                    cipher,
                                    settings,
                                    path,
                                    auto_server,
                                    port,
                                    page_size,
                                );
                                (o, m3, nn)
                            },
                        },
                    }
                },
            }
        },
    }
}

/// A database, as it is opened from a connection description.
pub struct Database {
    pub db_settings: DbSettings,
    pub persistent: bool,
    pub file_password_hash: Option<Vec<u8>>,
    pub database_path: String,
    pub max_length_inplace_lob: i32,
    pub cipher: String,
    pub auto_server_mode: bool,
    pub auto_server_port: i32,
    pub page_size: i32,
    pub database_short_name: String,
    pub read_only: bool,
    pub file_lock_method: i8,
    pub database_url: String,
    pub mode: Option<Mode>,
    pub default_null_ordering: Option<DefaultNullOrdering>,
    pub cache_type: String,
    pub ignore_catalogs: bool,
    pub lock_mode: i32,
    pub starting: bool,
}

/// What `Database::new` gives where it does not fail.
pub enum DatabaseOpening {
    /// The database.
    Opened(Database),
    /// The file whose real path is needed first: call again with it.
    RealPathNeeded(String),
}

/// The view of an optional byte vector.
pub open spec fn hash_view(b: Option<Vec<u8>>) -> Option<Seq<u8>> {
    match b {
        Some(v) => Some(v@),
        None => None,
    }
}

/// The default placements of an optional NULL ordering.
pub open spec fn ordering_view(o: Option<DefaultNullOrdering>) -> Option<(i32, i32)> {
    match o {
        Some(d) => Some((d.asc_nulls(), d.desc_nulls())),
        None => None,
    }
}

impl Database {
    /// Whether the database is the one that `v` describes, its mode is the
    /// regular mode, and it is not starting yet.
    pub open spec fn is_view(&self, v: DatabaseView) -> bool {
        &&& self.db_settings.wf()
        &&& self.db_settings.view_of() == v.db_settings
        &&& self.persistent == v.persistent
        &&& hash_view(self.file_password_hash) == v.file_password_hash
        &&& self.database_path@ == v.database_path
        &&& self.max_length_inplace_lob == v.max_length_inplace_lob
        &&& self.cipher@ == v.cipher
        &&& self.auto_server_mode == v.auto_server_mode
        &&& self.auto_server_port == v.auto_server_port
        &&& self.page_size == v.page_size
        &&& is_cut_name(v.short_name_source, self.database_short_name@)
        &&& self.read_only == v.read_only
        &&& self.file_lock_method == v.file_lock_method
        &&& self.database_url@ == v.database_url
        &&& (self.mode matches Some(m) && is_regular_mode(m))
        &&& ordering_view(self.default_null_ordering) == v.default_null_ordering
        &&& (self.default_null_ordering matches Some(d) ==> d.is_ordering(d.asc_nulls(), d.desc_nulls()))
        &&& self.cache_type@ == v.cache_type
        &&& self.ignore_catalogs == v.ignore_catalogs
        &&& self.lock_mode == v.lock_mode
        &&& !self.starting
    }

    /// Opens the database that the connection description `connection_info`
    /// describes, with the cipher `cipher`; see `new_for`, with whether the
    /// database name is an absolute path as `is_absolute` tells it on this
    /// platform.
    pub fn new(connection_info: &mut ConnectionInfo, cipher: &str, real_path: Option<&str>) -> (r: Option<
        Result<DatabaseOpening, DbError>,
    >)
        requires
            old(connection_info).wf(),
        ensures
            final(connection_info).wf(),
            exists|name_is_absolute: bool|
                #![trigger absolute_claims(old(connection_info).name@, name_is_absolute)]
                absolute_claims(old(connection_info).name@, name_is_absolute) && database_opened(
                    *old(connection_info),
                    *final(connection_info),
                    cipher@,
                    str_view(real_path),
                    name_is_absolute,
                    r,
                ),
    {
        let name_is_absolute = is_absolute(connection_info.name.as_str());
        Self::new_for(connection_info, cipher, real_path, name_is_absolute)
    }

    /// Opens the database that the connection description `connection_info`
    /// describes, with the cipher `cipher`, where `name_is_absolute` tells
    /// whether the database name is an absolute path on this platform; see
    /// `database_outcome`. `real_path` is the real path that the file system
    /// gives for the file of a persistent database, where it is known; where
    /// it is needed and not given, the file is named in `RealPathNeeded`, and
    /// nothing has changed. `None` where the short name of the database
    /// cannot be cut to the longest identifier.
    #[verifier::rlimit(40)]
    #[verifier::spinoff_prover]
    pub fn new_for(
        connection_info: &mut ConnectionInfo,
        cipher: &str,
        real_path: Option<&str>,
        name_is_absolute: bool,
    ) -> (r: Option<Result<DatabaseOpening, DbError>>)
        requires
            old(connection_info).wf(),
        ensures
            final(connection_info).wf(),
            ({
                let (o, m, nn) = database_outcome(
                    old(connection_info).view_of(),
                    cipher@,
                    str_view(real_path),
                    name_is_absolute,
                );
                &&& final(connection_info).prop.map() == m
                &&& final(connection_info).name_normalized@ == nn
                &&& match o {
                    DatabaseOutcome::Opened(v) => r matches Some(Ok(DatabaseOpening::Opened(d))) && d.is_view(v),
                    DatabaseOutcome::RealPathNeeded(f) => r matches Some(Ok(DatabaseOpening::RealPathNeeded(g)))
                        && g@ == f,
                    DatabaseOutcome::Failed(x) => r matches Some(Err(e)) && is_error(e, x.0, x.1),
                    DatabaseOutcome::NameNotCut => r is None,
                }
            }),
            final(connection_info).url == old(connection_info).url,
            final(connection_info).original_url == old(connection_info).original_url,
            final(connection_info).user == old(connection_info).user,
            final(connection_info).name == old(connection_info).name,
            final(connection_info).persistent == old(connection_info).persistent,
            final(connection_info).remote == old(connection_info).remote,
            final(connection_info).ssl == old(connection_info).ssl,
            final(connection_info).unnamed_in_memory == old(connection_info).unnamed_in_memory,
            final(connection_info).user_password_hash == old(connection_info).user_password_hash,
            final(connection_info).file_password_hash == old(connection_info).file_password_hash,
    {
        let db_settings = match connection_info.get_db_settings() {
            Ok(d) => d,
            Err(e) => return Some(Err(e)),
        };
        let persistent = connection_info.persistent;
        let file_password_hash = match &connection_info.file_password_hash {
            Some(h) => Some(h.clone()),
            None => None,
        };
        let database_path = match connection_info.database_path_for(real_path, name_is_absolute) {
            Ok(DatabasePath::Path(p)) => p,
            Ok(DatabasePath::RealPathNeeded(f)) => return Some(Ok(DatabaseOpening::RealPathNeeded(f))),
            Err(e) => return Some(Err(e)),
        };
        let auto_server_mode = match connection_info.get_property_bool("AUTO_SERVER", false) {
            Ok(b) => b,
            Err(e) => return Some(Err(e)),
        };
        let auto_server_port = match connection_info.get_property_int("AUTO_SERVER_PORT", 0) {
            Ok(v) => v,
            Err(e) => return Some(Err(e)),
        };
        let page_size = match connection_info.get_property_int("PAGE_SIZE", constant::DEFAULT_PAGE_SIZE) {
            Ok(v) => v,
            Err(e) => return Some(Err(e)),
        };
        let database_short_name = match parse_database_short_name(
            database_path.as_str(),
            db_settings.database_to_upper,
            db_settings.database_to_lower,
        ) {
            Some(n) => n,
            None => return None,
        };
        if cipher.unicode_len() > 0 && page_size % file_encrypt::BLOCK_SIZE != 0 {
            let size = i32_to_decimal(page_size);
            let text = str_concat("CIPHER && PAGE_SIZE=", size.as_str());
            return Some(Err(DbError::get_unsupported_exception(text.as_str())));
        }
        let access_mode = connection_info.get_property_string("ACCESS_MODE_DATA", "rw");
        let access_mode_data = to_lower_english(access_mode.as_str());
        let read_only = str_eq("r", access_mode_data.as_str());
        let lock_method_name = connection_info.get_property_string("FILE_LOCK", "");
        let file_lock_method = if lock_method_name.unicode_len() > 0 {
            match get_file_lock_method(lock_method_name.as_str()) {
                Ok(m) => m,
                Err(e) => return Some(Err(e)),
            }
        } else if auto_server_mode {
            file_lock_method::FILE
        } else {
            file_lock_method::FS
        };
        let database_url = connection_info.url.clone();
        let mut mode = Mode::get_regular();
        let mode_name = connection_info.remove_property_str("MODE", "");
        if mode_name.unicode_len() > 0 {
            mode = Mode::get_instance(mode_name.as_str());
            if mode.is_none() {
                return Some(Err(DbError::get(error_code::UNKNOWN_MODE_1, one_param(mode_name.as_str()))));
            }
        }
        let ordering_name = connection_info.remove_property_str("DEFAULT_NULL_ORDERING", "");
        let mut default_null_ordering: Option<DefaultNullOrdering> = None;
        if ordering_name.unicode_len() > 0 {
            let upper = to_upper_english(ordering_name.as_str());
            match DefaultNullOrdering::value_of(upper.as_str()) {
                Some(d) => {
                    default_null_ordering = Some(d);
                },
                None => {
                    return Some(
                        Err(DbError::get_invalid_value_exception("DEFAULT_NULL_ORDERING", ordering_name.as_str())),
                    );
                },
            }
        }
        let _allow_builtin_alias_override = match connection_info.get_property_bool("BUILTIN_ALIAS_OVERRIDE", false) {
            Ok(b) => b,
            Err(e) => return Some(Err(e)),
        };
        let close_at_vm_shutdown = db_settings.db_close_on_exit;
        if auto_server_mode && !close_at_vm_shutdown {
            return Some(Err(DbError::get_unsupported_exception("AUTO_SERVER=TRUE && DB_CLOSE_ON_EXIT=FALSE")));
        }
        let cache_name = connection_info.remove_property_str("CACHE_TYPE", constant::CACHE_TYPE_DEFAULT);
        let cache_type = to_upper_english(cache_name.as_str());
        let ignore_catalogs = match connection_info.get_property_bool("IGNORE_CATALOGS", db_settings.ignore_catalogs) {
            Ok(b) => b,
            Err(e) => return Some(Err(e)),
        };
        let lock_mode = match connection_info.get_property_int("LOCK_MODE", constant::DEFAULT_LOCK_MODE) {
            Ok(v) => v,
            Err(e) => return Some(Err(e)),
        };
        if auto_server_mode && (read_only || !persistent || file_lock_method == file_lock_method::NO
            || file_lock_method == file_lock_method::FS) {
            return Some(
                Err(
                    DbError::get_unsupported_exception(
                        "AUTO_SERVER=TRUE && (readOnly || inMemory || FILE_LOCK=NO || FILE_LOCK=FS)",
                    ),
                ),
            );
        }
        Some(
            Ok(
                DatabaseOpening::Opened(
                    Database {
                        db_settings,
                        persistent,
                        file_password_hash,
                        database_path,
                        max_length_inplace_lob: constant::DEFAULT_MAX_LENGTH_INPLACE_LOB,
                        cipher: to_owned_string(cipher),
                        auto_server_mode,
                        auto_server_port,
                        page_size,
                        database_short_name,
                        read_only,
                        file_lock_method,
                        database_url,
                        mode,
                        default_null_ordering,
                        cache_type,
                        ignore_catalogs,
                        lock_mode,
                        starting: false,
                    },
                ),
            ),
        )
    }
}

/// Whether `p` is a suffix of `s`.
pub open spec fn is_suffix(p: Seq<char>, s: Seq<char>) -> bool {
    p.len() <= s.len() && s.subrange(s.len() - p.len(), s.len() as int) == p
}

impl Database {
    /// The name of the lock file of the database: its path with the lock file suffix.
    pub fn lock_file_name(&self) -> (r: String)
        ensures
            r@ == self.database_path@ + constant::SUFFIX_LOCK_FILE@,
    {
        str_concat(self.database_path.as_str(), constant::SUFFIX_LOCK_FILE)
    }

    /// Whether opening the database takes the cooperative file lock: it is
    /// persistent, not read-only, and its file lock method is neither `NO` nor
    /// `FS`. Taking that lock is not supported.
    pub fn needs_file_lock(&self) -> (r: bool)
        ensures
            r == (self.persistent && !self.read_only && self.file_lock_method != file_lock_method::NO
                && self.file_lock_method != file_lock_method::FS),
    {
        self.persistent && !self.read_only && self.file_lock_method != file_lock_method::NO
            && self.file_lock_method != file_lock_method::FS
    }

    /// Checks the lock file of the database: a persistent read-only database
    /// whose lock file exists is already open (`DATABASE_ALREADY_OPEN_1`).
    pub fn check_lock_file(&self, lock_file_exists: bool) -> (r: Result<(), DbError>)
        ensures
            self.persistent && self.read_only && lock_file_exists ==> (r matches Err(e) && is_error(
                e,
                error_code::DATABASE_ALREADY_OPEN_1,
                seq!["Lock file exists: "@ + self.database_path@ + constant::SUFFIX_LOCK_FILE@],
            )),
            !(self.persistent && self.read_only && lock_file_exists) ==> r is Ok,
    {
        if self.persistent && self.read_only && lock_file_exists {
            let name = self.lock_file_name();
            let text = str_concat("Lock file exists: ", name.as_str());
            proof {
                assert(text@ =~= "Lock file exists: "@ + self.database_path@ + constant::SUFFIX_LOCK_FILE@);
            }
            return Err(DbError::get(error_code::DATABASE_ALREADY_OPEN_1, one_param(text.as_str())));
        }
        Ok(())
    }

    /// Whether `path` is an old temporary file of the database: it begins with
    /// the database path and ends with the temporary file suffix.
    pub fn is_old_temp_file(&self, path: &str) -> (r: bool)
        ensures
            r == (is_suffix(constant::SUFFIX_TEMP_FILE@, path@) && is_prefix(self.database_path@, path@)),
    {
        let p = chars_of(path);
        let suffix = chars_of(constant::SUFFIX_TEMP_FILE);
        if suffix.len() > p.len() {
            return false;
        }
        let tail = chars_slice(p.as_slice(), p.len() - suffix.len(), p.len());
        let ends = chars_eq(tail.as_slice(), suffix.as_slice());
        ends && str_starts_with(path, self.database_path.as_str())
    }

    /// Marks the database as starting, and changes nothing else; a database
    /// without the MVStore is the error `GENERAL_ERROR_1`.
    pub fn start(&mut self) -> (r: Result<(), DbError>)
        ensures
            *final(self) == (Database { starting: true, ..*old(self) }),
            old(self).db_settings.mv_store ==> r is Ok,
            !old(self).db_settings.mv_store ==> (r matches Err(e) && is_error(
                e,
                error_code::GENERAL_ERROR_1,
                seq!["mv store not enabled"@],
            )),
    {
        self.starting = true;
        if !self.db_settings.mv_store {
            return Err(DbError::get(error_code::GENERAL_ERROR_1, one_param("mv store not enabled")));
        }
        Ok(())
    }
}

/// The short name of the database at `path`: `short_name_source` cut to the
/// longest identifier; `None` where it cannot be cut there.
fn parse_database_short_name(path: &str, to_upper: bool, to_lower: bool) -> (r: Option<String>)
    ensures
        match r {
            Some(n) => short_name_cuts(short_name_source(path@, to_upper, to_lower)) && is_cut_name(
                short_name_source(path@, to_upper, to_lower),
                n@,
            ),
            None => !short_name_cuts(short_name_source(path@, to_upper, to_lower)),
        },
{
    let c = chars_of(path);
    let mut k = c.len();
    proof {
        assert(c@.subrange(0, k as int) =~= c@);
    }
    while k > 0 && !(c[k - 1] == '/' || c[k - 1] == '\\' || c[k - 1] == ':')
        invariant
            k <= c@.len(),
            last_separator(c@) == last_separator(c@.subrange(0, k as int)),
        decreases k,
    {
        proof {
            assert(c@.subrange(0, k as int).drop_last() =~= c@.subrange(0, k - 1));
        }
        k = k - 1;
    }
    proof {
        if k > 0 {
            assert(c@.subrange(0, k as int).last() == c@[k - 1]);
        }
    }
    let segment = if k == c.len() {
        to_owned_string("UNNAMED")
    } else {
        string_of(chars_slice(c.as_slice(), k, c.len()).as_slice())
    };
    let source = if to_upper {
        to_upper_english(segment.as_str())
    } else if to_lower {
        to_lower_english(segment.as_str())
    } else {
        segment
    };
    let max: usize = 256;
    let text = source.as_str();
    proof {
        assert(text.spec_bytes() == encode_utf8(text@));
        assert(last_separator(c@) + 1 == k);
        assert(text@ == short_name_source(path@, to_upper, to_lower));
        assert(constant::MAX_IDENTIFIER_LENGTH == 256);
    }
    let length = text.as_bytes().len();
    if length > max && !text.is_char_boundary(max) {
        return None;
    }
    Some(truncate_string(text, max))
}

} // verus!
