use h2_rust::api::error_code;
use h2_rust::command::set_types::{get_type, get_type_name, get_types};
use h2_rust::engine::connection_info::{ConnectionInfo, DatabasePath};
use h2_rust::db::store::Store;
use h2_rust::engine::database::{Database, DatabaseOpening};
use h2_rust::engine::db_settings::{bool_to_string, default_settings, DbSettings};
use h2_rust::engine::engine::{
    check_database_files, database_file_names, open_session, open_session1, throw_not_found, DatabaseFiles, SessionStep,
};
use h2_rust::engine::mode::{Mode, ModeEnum};
use h2_rust::engine::session_remote::SessionRemote;
use h2_rust::jdbc::driver::Driver;
use h2_rust::jdbc::jdbc_connection::JdbcConnection;
use h2_rust::engine::constant;
use h2_rust::h2_rust_common::properties::Properties;
use h2_rust::mode::default_null_ordering::DefaultNullOrdering;
use h2_rust::store::file_lock::get_file_lock_method;
use h2_rust::store::file_lock_method;

fn props(pairs: &[(&str, &str)]) -> Properties {
    let mut p = Properties::new();
    for (k, v) in pairs {
        p.insert(k.to_string(), v.to_string());
    }
    p
}

#[test]
fn a() {
    assert_eq!(get_type("@"), 29);
}

#[test]
fn test_build_connection_info() {
    let info = Properties::new();
    let ci = ConnectionInfo::new(
        String::from("jdbc:h2:file:./data/rust"),
        &info,
        String::from("a"),
        String::from("a"),
    )
    .unwrap();
    assert_eq!(ci.url, "jdbc:h2:file:./data/rust");
    assert_eq!(ci.original_url, "jdbc:h2:file:./data/rust");
    assert_eq!(ci.user, "A");
    assert_eq!(ci.name, "./data/rust");
    assert!(ci.persistent);
    assert!(!ci.remote);
    assert!(ci.prop.is_empty());
    assert_eq!(ci.user_password_hash, Some(Vec::new()));
}

#[test]
fn db_settings_test_a() {
    let mut db_settings = DbSettings::new(Properties::new()).ok().unwrap();
    let r = db_settings.get_bool("aaaaa", true).ok().unwrap();
    assert!(r);
}

#[test]
fn h2_rust_macros_test_throw() {
    assert_eq!(ModeEnum::REGULAR.name(), "REGULAR");
}

#[test]
fn macros_test_throw() {
    assert_eq!(ModeEnum::REGULAR.name(), "REGULAR");
}

#[test]
fn set_type_names_and_indexes_agree() {
    let types = get_types();
    assert_eq!(types.len(), 46);
    for (i, name) in types.iter().enumerate() {
        assert_eq!(get_type(name), i);
        assert_eq!(get_type_name(i), *name);
    }
    assert_eq!(get_type("NO_SUCH_TYPE"), 1);
    assert_eq!(get_type_name(42), "TIME ZONE");
}

#[test]
fn connection_info_rejects_a_foreign_url() {
    let e = ConnectionInfo::new("jdbc:x:mem:".to_string(), &Properties::new(), String::new(), String::new())
        .err()
        .unwrap();
    assert_eq!(e.error_code, error_code::URL_FORMAT_ERROR_2);
    assert_eq!(e.params[1], "jdbc:x:mem:");
}

#[test]
fn connection_info_reads_url_settings() {
    let ci = ConnectionInfo::new(
        "jdbc:h2:mem:test;CACHE_TYPE=soft;FOO=1;;PAGE_SIZE=512".to_string(),
        &Properties::new(),
        String::new(),
        String::new(),
    )
    .unwrap();
    assert_eq!(ci.url, "jdbc:h2:mem:test");
    assert_eq!(ci.name, "mem:test");
    assert!(!ci.persistent);
    assert!(!ci.unnamed_in_memory);
    assert_eq!(ci.get_property("CACHE_TYPE"), Some("soft".to_string()));
    assert_eq!(ci.get_property("PAGE_SIZE"), Some("512".to_string()));
    assert_eq!(ci.get_property("FOO"), None);
    assert_eq!(ci.get_property_int("PAGE_SIZE", 7).ok(), Some(512));
    assert_eq!(ci.get_property_int("LOCK_MODE", 7).ok(), Some(7));
}

#[test]
fn connection_info_stops_at_a_setting_without_value() {
    let ci = ConnectionInfo::new(
        "jdbc:h2:mem:;PAGE_SIZE=1;JUNK;CACHE_TYPE=x".to_string(),
        &Properties::new(),
        String::new(),
        String::new(),
    )
    .unwrap();
    assert!(ci.unnamed_in_memory);
    assert_eq!(ci.get_property("PAGE_SIZE"), Some("1".to_string()));
    assert_eq!(ci.get_property("CACHE_TYPE"), None);
}

#[test]
fn connection_info_reads_given_properties_in_upper_case() {
    let info = props(&[("cache_type", "LRU"), ("unknown_key", "1"), ("mv_store", "false")]);
    let ci = ConnectionInfo::new("jdbc:h2:tcp://localhost/db".to_string(), &info, String::new(), String::new())
        .unwrap();
    assert!(ci.remote);
    assert_eq!(ci.name, "//localhost/db");
    assert_eq!(ci.get_property("CACHE_TYPE"), Some("LRU".to_string()));
    assert_eq!(ci.get_property("MV_STORE"), Some("false".to_string()));
    assert_eq!(ci.get_property("UNKNOWN_KEY"), None);
}

#[test]
fn connection_info_rejects_a_duplicate_property() {
    let info = props(&[("cache_type", "LRU"), ("CACHE_TYPE", "SOFT")]);
    let e = ConnectionInfo::new("jdbc:h2:mem:".to_string(), &info, String::new(), String::new()).err().unwrap();
    assert_eq!(e.error_code, error_code::DUPLICATE_PROPERTY_1);
    assert_eq!(e.params, vec!["CACHE_TYPE".to_string()]);
}

#[test]
fn connection_info_hashes_a_password_given_as_hex() {
    let info = props(&[("PASSWORD_HASH", "TRUE")]);
    let ci = ConnectionInfo::new("jdbc:h2:mem:".to_string(), &info, "sa".to_string(), "0aff".to_string()).unwrap();
    assert_eq!(ci.user, "SA");
    assert_eq!(ci.user_password_hash, Some(vec![0x0a, 0xff]));
    assert!(ci.get_property("PASSWORD").is_none());
    assert!(ci.get_property("PASSWORD_HASH").is_none());
    let e = ConnectionInfo::new("jdbc:h2:mem:".to_string(), &info, "sa".to_string(), "0af".to_string())
        .err()
        .unwrap();
    assert_eq!(e.error_code, error_code::HEX_STRING_ODD_1);
    let e = ConnectionInfo::new("jdbc:h2:mem:".to_string(), &info, "sa".to_string(), "zz".to_string())
        .err()
        .unwrap();
    assert_eq!(e.error_code, error_code::HEX_STRING_WRONG_1);
}

#[test]
fn connection_info_property_accessors() {
    let mut ci = ConnectionInfo::new("jdbc:h2:./db".to_string(), &Properties::new(), String::new(), String::new())
        .unwrap();
    assert!(ci.persistent);
    ci.set_property("LOCK_MODE", "x1");
    ci.set_property("EMPTY", "");
    assert!(ci.get_property("EMPTY").is_none());
    let e = ci.get_property_int("LOCK_MODE", 3).err().unwrap();
    assert_eq!(e.error_code, error_code::DATA_CONVERSION_ERROR_1);
    assert_eq!(ci.get_property_string("LOCK_MODE", "d"), "x1");
    assert_eq!(ci.get_property_string("NONE", "d"), "d");
    assert_eq!(ci.get_property_bool("yes", false).ok(), Some(true));
    assert_eq!(ci.get_property_bool("LOCK_MODE", true).ok(), Some(false));
    assert_eq!(ci.remove_property_str("LOCK_MODE", "z"), "x1");
    assert_eq!(ci.remove_property_str("LOCK_MODE", "z"), "z");
    ci.set_property("FLAG", "yes");
    assert_eq!(ci.remove_property_bool("FLAG", false).ok(), Some(true));
    assert_eq!(ci.remove_property_bool("FLAG", false).ok(), Some(false));
    ci.set_user_name("straße".to_string());
    assert_eq!(ci.user, "STRASSE");
}

#[test]
fn database_path_needs_the_real_path_first() {
    let mut ci = ConnectionInfo::new("jdbc:h2:./data/db".to_string(), &Properties::new(), String::new(), String::new())
        .unwrap();
    match ci.get_database_path(None).ok().unwrap() {
        DatabasePath::RealPathNeeded(f) => assert_eq!(f, "./data/db.mv.db"),
        DatabasePath::Path(_) => panic!("the path cannot be known yet"),
    }
    match ci.get_database_path(Some("/home/u/data/db.mv.db")).ok().unwrap() {
        DatabasePath::Path(p) => assert_eq!(p, "/home/u/data/db"),
        DatabasePath::RealPathNeeded(_) => panic!("the path is known"),
    }
    assert_eq!(ci.name_normalized, "/home/u/data/db");
    match ci.get_database_path(None).ok().unwrap() {
        DatabasePath::Path(p) => assert_eq!(p, "/home/u/data/db"),
        DatabasePath::RealPathNeeded(_) => panic!("the path is kept"),
    }
}

#[test]
fn database_path_errors() {
    let mut ci = ConnectionInfo::new("jdbc:h2:db".to_string(), &Properties::new(), String::new(), String::new())
        .unwrap();
    let e = ci.get_database_path(None).err().unwrap();
    assert_eq!(e.error_code, error_code::URL_RELATIVE_TO_CWD);
    assert_eq!(e.params, vec!["jdbc:h2:db".to_string()]);
    let mut ci = ConnectionInfo::new("jdbc:h2:./db".to_string(), &Properties::new(), String::new(), String::new())
        .unwrap();
    let e = ci.get_database_path(Some("/x/.mv.db")).err().unwrap();
    assert_eq!(e.error_code, error_code::INVALID_DATABASE_NAME_1);
    let mut ci = ConnectionInfo::new("jdbc:h2:mem:x".to_string(), &Properties::new(), String::new(), String::new())
        .unwrap();
    match ci.get_database_path(None).ok().unwrap() {
        DatabasePath::Path(p) => assert_eq!(p, "mem:x"),
        DatabasePath::RealPathNeeded(_) => panic!("in memory"),
    }
}

#[test]
fn db_settings_defaults_and_errors() {
    let d = default_settings();
    assert!(!d.database_to_lower);
    assert!(d.database_to_upper);
    assert!(d.db_close_on_exit);
    assert!(!d.ignore_catalogs);
    assert!(d.mv_store);
    let e = DbSettings::new(props(&[("DATABASE_TO_LOWER", "TRUE"), ("DATABASE_TO_UPPER", "true")])).err().unwrap();
    assert_eq!(e.error_code, error_code::UNSUPPORTED_SETTING_COMBINATION);
    let s = DbSettings::new(props(&[("DATABASE_TO_LOWER", "TRUE")])).ok().unwrap();
    assert!(s.database_to_lower);
    assert!(!s.database_to_upper);
    let e = DbSettings::new(props(&[("MV_STORE", "maybe")])).err().unwrap();
    assert_eq!(e.error_code, error_code::DATA_CONVERSION_ERROR_1);
    assert_eq!(e.params, vec!["can't convert maybe to bool".to_string()]);
}

#[test]
fn db_settings_remember_defaults() {
    let mut s = DbSettings::new(Properties::new()).ok().unwrap();
    assert_eq!(s.get_int("X", 42).ok(), Some(42));
    assert_eq!(s.get_int("X", 7).ok(), Some(42));
    assert_eq!(s.get_string("Y", "first"), "first");
    assert_eq!(s.get_string("Y", "second"), "first");
    assert!(s.contains_key("Y"));
    assert_eq!(bool_to_string(false), "false");
    assert!(s.get_bool("Z", false).ok() == Some(false));
}

#[test]
fn throw_not_found_answers() {
    assert_eq!(throw_not_found(true, true, "db").err().unwrap().error_code, error_code::DATABASE_NOT_FOUND_WITH_IF_EXISTS_1);
    assert_eq!(throw_not_found(false, true, "db").err().unwrap().error_code, error_code::REMOTE_DATABASE_NOT_FOUND_1);
    assert!(throw_not_found(false, false, "db").is_ok());
}

#[test]
fn session_remote_reads_its_flag_from_the_name() {
    let ci = ConnectionInfo::new("jdbc:h2:mem:".to_string(), &Properties::new(), String::new(), String::new()).unwrap();
    let s = SessionRemote::new(ci).ok().unwrap();
    assert!(!s.old_information_schema);
}

#[test]
fn mode_lookup() {
    assert!(Mode::get_instance("regular").is_some());
    assert!(Mode::get_instance("Oracle").is_none());
    let m = Mode::get_regular().unwrap();
    assert!(m.limit);
    assert_eq!(m.name, "REGULAR");
}

#[test]
fn null_ordering_names() {
    assert!(DefaultNullOrdering::value_of("LOW").is_some());
    assert!(DefaultNullOrdering::value_of("FIRST").is_some());
    assert!(DefaultNullOrdering::value_of("low").is_none());
}

#[test]
fn file_lock_methods() {
    assert_eq!(get_file_lock_method("").ok(), Some(file_lock_method::FILE));
    assert_eq!(get_file_lock_method("no").ok(), Some(file_lock_method::NO));
    assert_eq!(get_file_lock_method("Socket").ok(), Some(file_lock_method::SOCKET));
    assert_eq!(get_file_lock_method("fs").ok(), Some(file_lock_method::FS));
    let e = get_file_lock_method("nfs").err().unwrap();
    assert_eq!(e.error_code, error_code::UNSUPPORTED_LOCK_METHOD_1);
}

fn open(url: &str, info: &Properties, real: Option<&str>) -> (ConnectionInfo, Option<Result<DatabaseOpening, h2_rust::message::db_error::DbError>>) {
    let mut ci = ConnectionInfo::new(url.to_string(), info, String::new(), String::new()).unwrap();
    let r = Database::new(&mut ci, "", real);
    (ci, r)
}

#[test]
fn database_opens_in_memory() {
    let info = props(&[("MODE", "regular"), ("DEFAULT_NULL_ORDERING", "high"), ("CACHE_TYPE", "soft")]);
    let (ci, r) = open("jdbc:h2:mem:abc", &info, None);
    let db = match r.unwrap().ok().unwrap() {
        DatabaseOpening::Opened(d) => d,
        DatabaseOpening::RealPathNeeded(_) => panic!("in memory"),
    };
    assert_eq!(db.database_path, "mem:abc");
    assert_eq!(db.database_short_name, "ABC");
    assert_eq!(db.cache_type, "SOFT");
    assert_eq!(db.page_size, 4096);
    assert_eq!(db.lock_mode, 3);
    assert_eq!(db.file_lock_method, file_lock_method::FS);
    assert!(!db.read_only);
    assert!(!db.auto_server_mode);
    assert!(db.default_null_ordering.is_some());
    assert!(ci.get_property("MODE").is_none());
    assert!(ci.get_property("CACHE_TYPE").is_none());
    assert!(!db.needs_file_lock());
}

#[test]
fn database_open_errors() {
    let (_, r) = open("jdbc:h2:mem:a", &props(&[("MODE", "Oracle")]), None);
    assert_eq!(r.unwrap().err().unwrap().error_code, error_code::UNKNOWN_MODE_1);
    let (_, r) = open("jdbc:h2:mem:a", &props(&[("DEFAULT_NULL_ORDERING", "middle")]), None);
    let e = r.unwrap().err().unwrap();
    assert_eq!(e.error_code, error_code::INVALID_VALUE_2);
    assert_eq!(e.params, vec!["middle".to_string(), "DEFAULT_NULL_ORDERING".to_string()]);
    let (_, r) = open("jdbc:h2:mem:a", &props(&[("FILE_LOCK", "nfs")]), None);
    assert_eq!(r.unwrap().err().unwrap().error_code, error_code::UNSUPPORTED_LOCK_METHOD_1);
    let (_, r) = open("jdbc:h2:mem:a", &props(&[("PAGE_SIZE", "big")]), None);
    assert_eq!(r.unwrap().err().unwrap().error_code, error_code::DATA_CONVERSION_ERROR_1);
    let mut ci = ConnectionInfo::new("jdbc:h2:mem:a".to_string(), &Properties::new(), String::new(), String::new()).unwrap();
    ci.set_property("PAGE_SIZE", "100");
    let e = Database::new(&mut ci, "AES", None).unwrap().err().unwrap();
    assert_eq!(e.error_code, error_code::FEATURE_NOT_SUPPORTED_1);
    assert_eq!(e.params, vec!["CIPHER && PAGE_SIZE=100".to_string()]);
}

#[test]
fn persistent_database_asks_for_its_real_path() {
    let (mut ci, r) = open("jdbc:h2:./data/test;ACCESS_MODE_DATA=r", &Properties::new(), None);
    match r.unwrap().ok().unwrap() {
        DatabaseOpening::RealPathNeeded(f) => assert_eq!(f, "./data/test.mv.db"),
        DatabaseOpening::Opened(_) => panic!("the path is not known yet"),
    }
    let r = Database::new(&mut ci, "", Some("/srv/data/test.mv.db"));
    let mut db = match r.unwrap().ok().unwrap() {
        DatabaseOpening::Opened(d) => d,
        DatabaseOpening::RealPathNeeded(_) => panic!("the path is known"),
    };
    assert_eq!(db.database_path, "/srv/data/test");
    assert_eq!(db.database_short_name, "TEST");
    assert!(db.read_only);
    assert_eq!(db.lock_file_name(), "/srv/data/test.lock.db");
    let e = db.check_lock_file(true).err().unwrap();
    assert_eq!(e.error_code, error_code::DATABASE_ALREADY_OPEN_1);
    assert_eq!(e.params, vec!["Lock file exists: /srv/data/test.lock.db".to_string()]);
    assert!(db.check_lock_file(false).is_ok());
    assert!(db.is_old_temp_file("/srv/data/test.1.temp.db"));
    assert!(!db.is_old_temp_file("/srv/data/other.temp.db"));
    assert!(!db.is_old_temp_file("/srv/data/test.mv.db"));
    assert!(db.start().is_ok());
    assert!(db.starting);
}

#[test]
fn store_of_a_persistent_database() {
    let (mut ci, _) = open("jdbc:h2:./data/test", &Properties::new(), None);
    let r = Database::new(&mut ci, "", Some("/srv/data/test.mv.db"));
    let db = match r.unwrap().ok().unwrap() {
        DatabaseOpening::Opened(d) => d,
        DatabaseOpening::RealPathNeeded(_) => panic!("the path is known"),
    };
    let plan = Store::plan(&db, false, 90, false, false);
    assert_eq!(plan.mv_file_path, "/srv/data/test.mv.db");
    assert!(plan.create_directories);
    assert!(!plan.encrypted);
    let store = Store::new(plan, None);
    assert_eq!(store.mv_file_path, "/srv/data/test.mv.db");
    assert_eq!(store.mv_store.file_name, Some("/srv/data/test.mv.db".to_string()));
    assert_eq!(store.mv_store.page_split_size, 4096);
    assert_eq!(store.mv_store.auto_compact_fill_rate, 90);
    assert!(!store.mv_store.read_only);
}

#[test]
fn store_of_a_compressed_database() {
    let (mut ci, _) = open("jdbc:h2:./data/test", &Properties::new(), None);
    let r = Database::new(&mut ci, "", Some("/srv/data/test.mv.db"));
    let db = match r.unwrap().ok().unwrap() {
        DatabaseOpening::Opened(d) => d,
        DatabaseOpening::RealPathNeeded(_) => panic!("the path is known"),
    };
    let plan = Store::plan(&db, true, 101, true, true);
    assert!(!plan.create_directories);
    assert!(plan.encrypted);
    let store = Store::new(plan, None);
    assert_eq!(store.mv_store.compression_level, 1);
    assert_eq!(store.mv_store.page_split_size, 65536);
    assert_eq!(store.mv_store.auto_compact_fill_rate, 90);
}

#[test]
fn store_of_an_in_memory_database() {
    let (_, r) = open("jdbc:h2:mem:abc", &Properties::new(), None);
    let db = match r.unwrap().ok().unwrap() {
        DatabaseOpening::Opened(d) => d,
        DatabaseOpening::RealPathNeeded(_) => panic!("in memory"),
    };
    let plan = Store::plan(&db, true, 90, false, true);
    assert_eq!(plan.mv_file_path, "mem:abc.mv.db");
}

fn files(mv_file_exists: bool, old_file_exists: bool, mv_file_writable: bool) -> DatabaseFiles {
    DatabaseFiles { mv_file_exists, old_file_exists, mv_file_writable }
}

#[test]
fn session_options_are_taken_out() {
    let mut ci = ConnectionInfo::new("jdbc:h2:mem:s".to_string(), &Properties::new(), String::new(), String::new())
        .unwrap();
    ci.set_property("IFEXIST", "TRUE");
    ci.set_property("CIPHER", "AES");
    ci.set_property("INIT", "RUNSCRIPT");
    let o = open_session(&mut ci).ok().unwrap();
    assert!(o.if_exist);
    assert!(!o.forbid_creation);
    assert!(!o.ignore_unknown_setting);
    assert_eq!(o.cipher, "AES");
    assert_eq!(o.init, "RUNSCRIPT");
    assert!(ci.get_property("IFEXIST").is_none());
    assert!(ci.get_property("CIPHER").is_none());
    let o = open_session(&mut ci).ok().unwrap();
    assert!(!o.if_exist);
    assert_eq!(o.cipher, "");
}

#[test]
fn files_of_a_database() {
    let (mv, old) = database_file_names("/d/db");
    assert_eq!(mv, "/d/db.mv.db");
    assert_eq!(old, "/d/db.mv.db.data.db");
    let mut ci = ConnectionInfo::new("jdbc:h2:./db".to_string(), &Properties::new(), String::new(), String::new())
        .unwrap();
    assert!(check_database_files(&mut ci, "/d/db", false, false, &files(true, false, true)).is_ok());
    assert!(ci.get_property("ACCESS_MODE_DATA").is_none());
    assert!(check_database_files(&mut ci, "/d/db", false, false, &files(true, false, false)).is_ok());
    assert_eq!(ci.get_property("ACCESS_MODE_DATA"), Some("r".to_string()));
    assert!(check_database_files(&mut ci, "/d/db", false, false, &files(false, false, false)).is_ok());
    let e = check_database_files(&mut ci, "/d/db", true, false, &files(false, false, false)).err().unwrap();
    assert_eq!(e.error_code, error_code::DATABASE_NOT_FOUND_WITH_IF_EXISTS_1);
    assert_eq!(e.params, vec!["/d/db".to_string()]);
    let e = check_database_files(&mut ci, "/d/db", false, true, &files(false, true, false)).err().unwrap();
    assert_eq!(e.error_code, error_code::REMOTE_DATABASE_NOT_FOUND_1);
    let e = check_database_files(&mut ci, "/d/db", false, false, &files(false, true, false)).err().unwrap();
    assert_eq!(e.error_code, error_code::FILE_VERSION_ERROR_1);
    assert_eq!(
        e.params,
        vec!["old database: /d/db.mv.db.data.db - please convert the database to a SQL script and re-create it."
            .to_string()]
    );
    ci.set_property("MV_STORE", "TRUE");
    assert!(check_database_files(&mut ci, "/d/db", false, false, &files(false, true, false)).is_ok());
    let mut mem = ConnectionInfo::new("jdbc:h2:mem:m".to_string(), &Properties::new(), String::new(), String::new())
        .unwrap();
    assert!(check_database_files(&mut mem, "mem:m", false, false, &files(false, true, false)).is_ok());
    let e = check_database_files(&mut mem, "mem:m", true, false, &files(true, false, true)).err().unwrap();
    assert_eq!(e.error_code, error_code::DATABASE_NOT_FOUND_WITH_IF_EXISTS_1);
}

#[test]
fn session_opening_decisions() {
    let mut ci = ConnectionInfo::new("jdbc:h2:./db".to_string(), &Properties::new(), String::new(), String::new())
        .unwrap();
    ci.set_property("NO_UPGRADE", "TRUE");
    match open_session1(&mut ci, false, false, "/d/db", true, &files(false, false, false)).ok().unwrap() {
        SessionStep::UseHeld => {}
        SessionStep::Open => panic!("the database is held already"),
    }
    assert!(ci.get_property("NO_UPGRADE").is_none());
    match open_session1(&mut ci, false, false, "/d/db", false, &files(true, false, false)).ok().unwrap() {
        SessionStep::Open => {}
        SessionStep::UseHeld => panic!("no database is held"),
    }
    assert_eq!(ci.get_property("ACCESS_MODE_DATA"), Some("r".to_string()));
    let e = open_session1(&mut ci, true, false, "/d/db", false, &files(false, false, false)).err().unwrap();
    assert_eq!(e.error_code, error_code::DATABASE_NOT_FOUND_WITH_IF_EXISTS_1);
}

#[test]
fn driver_urls() {
    let driver = Driver {};
    let e = driver.connect(String::new(), &Properties::new()).err().unwrap();
    assert_eq!(e.error_code, error_code::URL_FORMAT_ERROR_2);
    assert_eq!(e.params, vec![constant::URL_FORMAT.to_string(), String::new()]);
    let e = driver.connect("jdbc:x:mem:a".to_string(), &Properties::new()).err().unwrap();
    assert_eq!(e.error_code, error_code::URL_FORMAT_ERROR_2);
    assert_eq!(e.params, vec![constant::URL_FORMAT.to_string(), "jdbc:x:mem:a".to_string()]);
    let c = driver.connect("jdbc:h2:mem:a".to_string(), &Properties::new()).ok().unwrap();
    assert!(!c.session.old_information_schema);
    assert!(!c.session.connection_info.persistent);
    assert!(c.session.connection_info.get_property("FORBID_CREATION").is_none());
    assert!(c.session.connection_info.get_property("OPEN_NEW").is_none());
}

#[test]
fn connections_forbidding_creation() {
    let c = JdbcConnection::new("jdbc:h2:mem:b".to_string(), &Properties::new(), "sa".to_string(), String::new(), true)
        .ok()
        .unwrap();
    assert_eq!(c.session.connection_info.get_property("FORBID_CREATION"), Some("TRUE".to_string()));
    assert_eq!(c.session.connection_info.user, "SA");
    let e = JdbcConnection::new("jdbc:x:mem:x".to_string(), &Properties::new(), String::new(), String::new(), false)
        .err()
        .unwrap();
    assert_eq!(e.error_code, error_code::URL_FORMAT_ERROR_2);
}

#[test]
fn embedded_connection_asks_for_a_new_database() {
    let ci = ConnectionInfo::new("jdbc:h2:mem:c".to_string(), &Properties::new(), String::new(), String::new()).unwrap();
    let mut session = SessionRemote::new(ci).ok().unwrap();
    assert!(session.connect_embedded_or_server(false).is_ok());
    assert!(session.connection_info.get_property("OPEN_NEW").is_none());
    assert!(session.connect_embedded_or_server(true).is_ok());
    assert_eq!(session.connection_info.get_property("OPEN_NEW"), Some("true".to_string()));
}

#[test]
fn set_type_names_round_trip() {
    let n = get_types().len();
    assert_eq!(n, 46);
    for i in 0..n {
        assert_eq!(get_type(get_type_name(i)), i);
    }
}

#[test]
fn absolute_database_names_are_not_relative() {
    let mut ci = ConnectionInfo::new("jdbc:h2:/tmp/db".to_string(), &Properties::new(), String::new(), String::new())
        .unwrap();
    match ci.get_database_path(None).ok().unwrap() {
        DatabasePath::RealPathNeeded(f) => assert_eq!(f, "/tmp/db.mv.db"),
        DatabasePath::Path(_) => panic!("the real path is needed first"),
    }
    let e = ci.database_path_for(None, false).err().unwrap();
    assert_eq!(e.error_code, error_code::URL_RELATIVE_TO_CWD);
    match ci.database_path_for(Some("/tmp/db.mv.db"), true).ok().unwrap() {
        DatabasePath::Path(p) => assert_eq!(p, "/tmp/db"),
        DatabasePath::RealPathNeeded(_) => panic!("the real path was given"),
    }
}
