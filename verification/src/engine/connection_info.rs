use vstd::prelude::*;
use crate::api::error_code;
use crate::command::set_types::{get_types, type_names};
use crate::engine::constant;
use crate::engine::db_settings::{
    DbSettings,
    db_settings_result,
    default_settings,
    is_default_setting,
    lemma_db_settings_keys,
    text_or,
};
use crate::h2_rust_common::properties::Properties;
use crate::message::db_error::{DbError, is_error, one_param, two_params};
use crate::h2_rust_common::h2_rust_constant;
use crate::util::chars::{
    chars_contains,
    chars_find,
    chars_of,
    contains_chars,
    chars_slice,
    first_index_of,
    is_prefix,
    lemma_first_index_of,
    replace_all,
    str_eq,
    str_concat,
    str_starts_with,
    string_of,
    to_owned_string,
};
use crate::store::fs::file_utils::{absolute_claims, is_absolute};
use crate::util::io_utils::name_separators_to_native;
use crate::util::radix::{parse_i32_radix, parse_radix};
use crate::util::string_utils::{convert_hex_to_byte_vec, hex_decode_result, to_upper_english, upper_case_of};
use crate::util::utils::{parse_bool, parse_bool_value};

verus! {

/// The settings that every kind of connection understands.
pub open spec fn common_settings() -> Seq<Seq<char>> {
    seq![
        "ACCESS_MODE_DATA"@,
        "AUTO_RECONNECT"@,
        "AUTO_SERVER"@,
        "AUTO_SERVER_PORT"@,
        "CACHE_TYPE"@,
        "FILE_LOCK"@,
        "JMX"@,
        "NETWORK_TIMEOUT"@,
        "OLD_INFORMATION_SCHEMA"@,
        "OPEN_NEW"@,
        "PAGE_SIZE"@,
        "RECOVER"@,
    ]
}

/// The settings of a connection that are neither SET statements nor common settings.
pub open spec fn connection_settings() -> Seq<Seq<char>> {
    seq![
        "AUTHREALM"@,
        "AUTHZPWD"@,
        "AUTOCOMMIT"@,
        "CIPHER"@,
        "CREATE"@,
        "FORBID_CREATION"@,
        "IGNORE_UNKNOWN_SETTINGS"@,
        "IFEXISTS"@,
        "INIT"@,
        "NO_UPGRADE"@,
        "PASSWORD"@,
        "PASSWORD_HASH"@,
        "RECOVER_TEST"@,
        "USER"@,
    ]
}

/// The known settings: the names of the SET statements, the common settings and
/// the connection settings.
pub open spec fn known_setting(k: Seq<char>) -> bool {
    type_names().contains(k) || common_settings().contains(k) || connection_settings().contains(k)
}

/// A key of the properties that goes into the settings of the database: one of
/// the default database settings that is no known setting.
pub open spec fn db_setting_key(k: Seq<char>) -> bool {
    !known_setting(k) && is_default_setting(k)
}

/// The entries of `m` that go into the settings of the database.
pub open spec fn db_settings_of(m: Map<Seq<char>, Seq<char>>) -> Map<Seq<char>, Seq<char>> {
    m.restrict(Set::new(|k: Seq<char>| db_setting_key(k)))
}

/// Reading one given property into the properties `st`: its key in upper case
/// may not be present yet; it is stored where it is a known setting or a default
/// database setting, and dropped otherwise.
pub open spec fn read_property_step(
    st: Result<Map<Seq<char>, Seq<char>>, (i32, Seq<Seq<char>>)>,
    key: Seq<char>,
    value: Seq<char>,
) -> Result<Map<Seq<char>, Seq<char>>, (i32, Seq<Seq<char>>)> {
    match st {
        Err(x) => Err(x),
        Ok(m) => {
            let k = upper_case_of(key);
            if m.contains_key(k) {
                Err((error_code::DUPLICATE_PROPERTY_1, seq![k]))
            } else if known_setting(k) || is_default_setting(k) {
                Ok(m.insert(k, value))
            } else {
                Ok(m)
            }
        },
    }
}

/// The properties after reading the first `n` of the given keys, in order.
pub open spec fn read_properties_upto(
    m: Map<Seq<char>, Seq<char>>,
    keys: Seq<Seq<char>>,
    info: Map<Seq<char>, Seq<char>>,
    n: nat,
) -> Result<Map<Seq<char>, Seq<char>>, (i32, Seq<Seq<char>>)>
    decreases n,
{
    if n == 0 {
        Ok(m)
    } else {
        read_property_step(
            read_properties_upto(m, keys, info, (n - 1) as nat),
            keys[n - 1],
            info[keys[n - 1]],
        )
    }
}

/// What reading the given properties into `m` gives: the error of the settings
/// of the database where they do not read, else the properties after reading
/// every given key.
pub open spec fn read_properties_outcome(
    m: Map<Seq<char>, Seq<char>>,
    keys: Seq<Seq<char>>,
    info: Map<Seq<char>, Seq<char>>,
) -> Result<Map<Seq<char>, Seq<char>>, (i32, Seq<Seq<char>>)> {
    match db_settings_result(db_settings_of(m)) {
        Err(x) => Err(x),
        Ok(_) => read_properties_upto(m, keys, info, keys.len()),
    }
}

/// Once reading the given properties fails, it fails with the same error.
proof fn lemma_read_error_stays(
    m: Map<Seq<char>, Seq<char>>,
    keys: Seq<Seq<char>>,
    info: Map<Seq<char>, Seq<char>>,
    i: nat,
    n: nat,
)
    requires
        i <= n,
        read_properties_upto(m, keys, info, i) is Err,
    ensures
        read_properties_upto(m, keys, info, n) == read_properties_upto(m, keys, info, i),
    decreases n - i,
{
    if i < n {
        lemma_read_error_stays(m, keys, info, i, (n - 1) as nat);
    }
}

/// The state of reading the settings of a URL: the properties, the last
/// unknown key, and the error that ended the reading, if any.
pub struct UrlScan {
    pub props: Map<Seq<char>, Seq<char>>,
    pub unknown: Seq<char>,
    pub error: Option<(i32, Seq<Seq<char>>)>,
}

/// Reading one `key=value` setting of the URL `url`. An empty setting is
/// skipped; one without `=` is a format error. A known setting or default
/// database setting is stored if it is new; given again with the same value it
/// is the error `DUPLICATE_PROPERTY_1`, with another value it is dropped. Any
/// other key is remembered as unknown.
pub open spec fn url_setting_step(st: UrlScan, piece: Seq<char>, url: Seq<char>) -> UrlScan {
    if st.error is Some || piece.len() == 0 {
        st
    } else {
        match first_index_of(piece, '=') {
            None => UrlScan { props: st.props, unknown: st.unknown, error: Some(format_error(url)) },
            Some(e) => {
                let k = upper_case_of(piece.subrange(0, e));
                let v = piece.subrange(e + 1, piece.len() as int);
                if known_setting(k) || is_default_setting(k) {
                    if st.props.contains_key(k) {
                        if st.props[k] == v {
                            UrlScan {
                                props: st.props,
                                unknown: st.unknown,
                                error: Some((error_code::DUPLICATE_PROPERTY_1, seq![k])),
                            }
                        } else {
                            st
                        }
                    } else {
                        UrlScan { props: st.props.insert(k, v), unknown: st.unknown, error: None }
                    }
                } else {
                    UrlScan { props: st.props, unknown: k, error: None }
                }
            },
        }
    }
}

/// Reading the settings in `rest`, separated by `;`, where `piece` holds the
/// characters of the current setting read so far.
pub open spec fn url_settings_scan(st: UrlScan, piece: Seq<char>, rest: Seq<char>, url: Seq<char>) -> UrlScan
    decreases rest.len(),
{
    if rest.len() == 0 {
        url_setting_step(st, piece, url)
    } else if rest[0] == ';' {
        url_settings_scan(url_setting_step(st, piece, url), seq![], rest.drop_first(), url)
    } else {
        url_settings_scan(st, piece.push(rest[0]), rest.drop_first(), url)
    }
}

/// The URL without its settings, and the state after reading its settings
/// into the properties `m`.
pub open spec fn url_settings_outcome(url: Seq<char>, m: Map<Seq<char>, Seq<char>>) -> (Seq<char>, UrlScan) {
    let st = UrlScan { props: m, unknown: seq![], error: None };
    match first_index_of(url, ';') {
        None => (url, st),
        Some(i) => {
            let base = url.subrange(0, i);
            (base, url_settings_scan(st, seq![], url.subrange(i + 1, url.len() as int), base))
        },
    }
}

/// The error of reading the settings of a URL: the one that ended the reading,
/// else, where an unknown key was seen and `IGNORE_UNKNOWN_SETTINGS` is set and
/// reads as false, `UNSUPPORTED_SETTING_1` with the last unknown key.
pub open spec fn url_settings_error(st: UrlScan) -> Option<(i32, Seq<Seq<char>>)> {
    match st.error {
        Some(x) => Some(x),
        None => if st.unknown.len() > 0 && st.props.contains_key("IGNORE_UNKNOWN_SETTINGS"@)
            && !parse_bool_value(st.props["IGNORE_UNKNOWN_SETTINGS"@], false) {
            Some((error_code::UNSUPPORTED_SETTING_1, seq![st.unknown]))
        } else {
            None
        },
    }
}

/// Once reading the settings of a URL has failed, nothing changes any more.
proof fn lemma_scan_after_error(st: UrlScan, piece: Seq<char>, rest: Seq<char>, url: Seq<char>)
    requires
        st.error is Some,
    ensures
        url_settings_scan(st, piece, rest, url) == st,
    decreases rest.len(),
{
    if rest.len() > 0 {
        if rest[0] == ';' {
            lemma_scan_after_error(url_setting_step(st, piece, url), seq![], rest.drop_first(), url);
        } else {
            lemma_scan_after_error(st, piece.push(rest[0]), rest.drop_first(), url);
        }
    }
}

/// The database name, persistence, remoteness and unnamed-in-memory flag after
/// reading the prefix of the name `name` (`.` standing for `mem:`): `tcp:` and
/// `ssl:` make it remote, `mem:` makes it in-memory, `file:` and no prefix make
/// it persistent; the prefixes other than `mem:` are dropped, and a persistent
/// local name has its backslashes turned into slashes.
pub open spec fn parse_name_result(name: Seq<char>, persistent: bool, remote: bool, unnamed: bool) -> (
    Seq<char>,
    bool,
    bool,
    bool,
) {
    let n = if name == "."@ {
        "mem:"@
    } else {
        name
    };
    let (n2, p2, r2, u2) = if is_prefix("tcp:"@, n) {
        (n.subrange(4, n.len() as int), persistent, true, unnamed)
    } else if is_prefix("ssl:"@, n) {
        (n.subrange(4, n.len() as int), persistent, true, unnamed)
    } else if is_prefix("mem:"@, n) {
        (n, false, remote, unnamed || n == "mem:"@)
    } else if is_prefix("file:"@, n) {
        (n.subrange(5, n.len() as int), true, remote, unnamed)
    } else {
        (n, true, remote, unnamed)
    };
    (
        if p2 && !r2 {
            replace_all(n2, seq!['\\'], seq!['/'])
        } else {
            n2
        },
        p2,
        r2,
        u2,
    )
}

/// The hash of a password: the bytes of its hexadecimal text where the
/// password is given as a hash, else no bytes.
pub open spec fn password_hash_result(password_hash: bool, password: Seq<char>) -> Result<
    Seq<u8>,
    (i32, Seq<Seq<char>>),
> {
    if password_hash {
        hex_decode_result(password)
    } else {
        Ok(Seq::empty())
    }
}

/// What opening a connection description gives for the URL `url`, the given
/// properties (keys in order, and their map), the user and the password.
///
/// The URL must begin with `jdbc:h2:`. The given properties are read in order;
/// a non-empty user and password are stored as `USER` and `PASSWORD`; the
/// settings after the first `;` of the URL are stored, and an error among them
/// leaves the properties as they were when it was met, without failing. The
/// user is then taken out and put in upper case, the name read from the URL
/// after `jdbc:h2:`, and the password and `PASSWORD_HASH` taken out to give the
/// password hash.
pub open spec fn connection_info_outcome(
    url: Seq<char>,
    info_keys: Seq<Seq<char>>,
    info: Map<Seq<char>, Seq<char>>,
    user: Seq<char>,
    password: Seq<char>,
) -> Result<ConnectionInfoView, (i32, Seq<Seq<char>>)> {
    if !is_prefix(constant::START_URL@, url) {
        Err(format_error(url))
    } else {
        let read = if info_keys.len() == 0 {
            Ok(Map::empty())
        } else {
            read_properties_outcome(Map::empty(), info_keys, info)
        };
        match read {
            Err(x) => Err(x),
            Ok(m0) => {
                let m1 = if user.len() > 0 {
                    m0.insert("USER"@, user)
                } else {
                    m0
                };
                let m2 = if password.len() > 0 {
                    m1.insert("PASSWORD"@, password)
                } else {
                    m1
                };
                let (url2, scan) = url_settings_outcome(url, m2);
                let m3 = scan.props;
                let user_name = upper_case_of(text_or(m3, "USER"@, ""@));
                let m4 = m3.remove("USER"@);
                let (name, persistent, remote, unnamed) = parse_name_result(
                    url2.subrange(constant::START_URL@.len() as int, url2.len() as int),
                    false,
                    false,
                    false,
                );
                let pw = text_or(m4, "PASSWORD"@, ""@);
                let m5 = m4.remove("PASSWORD"@);
                let ph = parse_bool_value(text_or(m5, "PASSWORD_HASH"@, ""@), false);
                let m6 = m5.remove("PASSWORD_HASH"@);
                match password_hash_result(ph, pw) {
                    Err(x) => Err(x),
                    Ok(h) => Ok(
                        ConnectionInfoView {
                            url: url2,
                            original_url: url,
                            prop: m6,
                            user: user_name,
                            name,
                            name_normalized: seq![],
                            persistent,
                            remote,
                            ssl: false,
                            unnamed_in_memory: unnamed,
                            user_password_hash: Some(h),
                            file_password_hash: None,
                        },
                    ),
                }
            },
        }
    }
}

/// A URL that begins with `jdbc:h2:` still does so without its settings.
proof fn lemma_base_keeps_start(url: Seq<char>, m: Map<Seq<char>, Seq<char>>)
    requires
        is_prefix(constant::START_URL@, url),
    ensures
        is_prefix(constant::START_URL@, url_settings_outcome(url, m).0),
{
    reveal_strlit("jdbc:h2:");
    lemma_first_index_of(url, ';');
    if let Some(i) = first_index_of(url, ';') {
        if i < 8 {
            assert(url[i] == constant::START_URL@[i]);
        }
        assert(url.subrange(0, i).subrange(0, 8) =~= url.subrange(0, 8));
    }
}

/// What `get_database_path` gives: the path of the database, or the file
/// whose real path is needed first.
pub enum DatabasePath {
    /// The path of the database.
    Path(String),
    /// The file (the database name with the file suffix) whose real path the
    /// file system must give before the path can be known.
    RealPathNeeded(String),
}

/// Whether the database name is relative to the working directory: it is not
/// an absolute path (`name_is_absolute`, as the platform decides) and holds
/// none of `./`, `.\`, `:/`, `:\`.
pub open spec fn relative_to_cwd(name: Seq<char>, name_is_absolute: bool) -> bool {
    &&& !name_is_absolute
    &&& !contains_chars(name, "./"@)
    &&& !contains_chars(name, ".\\"@)
    &&& !contains_chars(name, ":/"@)
    &&& !contains_chars(name, ":\\"@)
}

/// The characters of `path` after its last `/`.
pub open spec fn last_segment(path: Seq<char>) -> Seq<char>
    decreases path.len(),
{
    if path.len() == 0 || path.last() == '/' {
        seq![]
    } else {
        last_segment(path.drop_last()).push(path.last())
    }
}

/// Resolving the path of a persistent database named `name` whose path is not
/// known yet: a name relative to the working directory is the error
/// `URL_RELATIVE_TO_CWD`; without the real path of the database file there is
/// nothing to give yet (`None`); a real path whose last segment is not longer
/// than the file suffix is the error `INVALID_DATABASE_NAME_1`; otherwise the
/// path is the real path without the suffix.
pub open spec fn resolve_database_path(
    name: Seq<char>,
    original_url: Seq<char>,
    real_file: Option<Seq<char>>,
    name_is_absolute: bool,
) -> Result<Option<Seq<char>>, (i32, Seq<Seq<char>>)> {
    if relative_to_cwd(name, name_is_absolute) {
        Err((error_code::URL_RELATIVE_TO_CWD, seq![original_url]))
    } else {
        match real_file {
            None => Ok(None),
            Some(r) => if last_segment(r).len() < constant::SUFFIX_MV_FILE@.len() + 1 {
                Err((error_code::INVALID_DATABASE_NAME_1, seq![name]))
            } else {
                Ok(Some(r.subrange(0, r.len() - constant::SUFFIX_MV_FILE@.len())))
            },
        }
    }
}

/// What finding the path of the database does to the description `old`,
/// leaving `new`, and gives back, where `real_file` is the real path of the
/// database file if known and `name_is_absolute` whether the database name is
/// an absolute path; see `resolve_database_path`.
pub open spec fn database_path_done(
    old: ConnectionInfo,
    new: ConnectionInfo,
    real_file: Option<Seq<char>>,
    name_is_absolute: bool,
    r: Result<DatabasePath, DbError>,
) -> bool {
    &&& new.wf()
    &&& new.prop == old.prop
    &&& new.url == old.url
    &&& new.original_url == old.original_url
    &&& new.user == old.user
    &&& new.name == old.name
    &&& new.persistent == old.persistent
    &&& new.remote == old.remote
    &&& new.ssl == old.ssl
    &&& new.unnamed_in_memory == old.unnamed_in_memory
    &&& new.user_password_hash == old.user_password_hash
    &&& new.file_password_hash == old.file_password_hash
    &&& !old.persistent ==> (r matches Ok(DatabasePath::Path(p)) && p@ == old.name@) && new.name_normalized
        == old.name_normalized
    &&& old.persistent && old.name_normalized@.len() > 0 ==> (r matches Ok(DatabasePath::Path(p)) && p@
        == old.name_normalized@) && new.name_normalized == old.name_normalized
    &&& old.persistent && old.name_normalized@.len() == 0 ==> match resolve_database_path(
        old.name@,
        old.original_url@,
        real_file,
        name_is_absolute,
    ) {
        Ok(Some(p)) => (r matches Ok(DatabasePath::Path(q)) && q@ == p) && new.name_normalized@ == p,
        Ok(None) => (r matches Ok(DatabasePath::RealPathNeeded(f)) && f@ == old.name@ + constant::SUFFIX_MV_FILE@)
            && new.name_normalized == old.name_normalized,
        Err(x) => (r matches Err(e) && is_error(e, x.0, x.1)) && new.name_normalized == old.name_normalized,
    }
}

/// The view of an optional string.
pub open spec fn str_view(s: Option<&str>) -> Option<Seq<char>> {
    match s {
        Some(t) => Some(t@),
        None => None,
    }
}

/// The last segment of a path is no longer than the path.
proof fn lemma_last_segment_is_suffix(path: Seq<char>)
    ensures
        last_segment(path).len() <= path.len(),
    decreases path.len(),
{
    if path.len() > 0 && path.last() != '/' {
        lemma_last_segment_is_suffix(path.drop_last());
    }
}

/// The characters of `path` after its last `/`.
fn last_segment_of(path: &[char]) -> (r: Vec<char>)
    ensures
        r@ == last_segment(path@),
{
    let mut k = path.len();
    proof {
        assert(path@.subrange(k as int, path@.len() as int) =~= seq![]);
        assert(path@.subrange(0, k as int) =~= path@);
    }
    while k > 0 && path[k - 1] != '/'
        invariant
            k <= path@.len(),
            last_segment(path@) == last_segment(path@.subrange(0, k as int)) + path@.subrange(
                k as int,
                path@.len() as int,
            ),
        decreases k,
    {
        proof {
            let p = path@.subrange(0, k as int);
            assert(p.drop_last() =~= path@.subrange(0, k - 1));
            assert(path@.subrange(k - 1, path@.len() as int) =~= seq![p.last()] + path@.subrange(
                k as int,
                path@.len() as int,
            ));
            assert(last_segment(p) == last_segment(p.drop_last()).push(p.last()));
            assert(last_segment(p.drop_last()).push(p.last()) + path@.subrange(k as int, path@.len() as int)
                =~= last_segment(p.drop_last()) + path@.subrange(k - 1, path@.len() as int));
        }
        k = k - 1;
    }
    proof {
        assert(last_segment(path@.subrange(0, k as int)) =~= seq![]);
        assert(seq![] + path@.subrange(k as int, path@.len() as int) =~= path@.subrange(
            k as int,
            path@.len() as int,
        ));
    }
    chars_slice(path, k, path.len())
}

/// The setting `key` of `m` read as a decimal `i32` (in the form that
/// `parse_radix` reads), or `d` where it is missing. A setting that is no
/// decimal `i32` is the error `DATA_CONVERSION_ERROR_1` with its text.
pub open spec fn int_property(m: Map<Seq<char>, Seq<char>>, key: Seq<char>, d: i32) -> Result<
    i32,
    (i32, Seq<Seq<char>>),
> {
    if !m.contains_key(key) {
        Ok(d)
    } else {
        match parse_radix(m[key], 10) {
            Some(v) => if i32::MIN <= v <= i32::MAX {
                Ok(v as i32)
            } else {
                Err((error_code::DATA_CONVERSION_ERROR_1, seq![m[key]]))
            },
            None => Err((error_code::DATA_CONVERSION_ERROR_1, seq![m[key]])),
        }
    }
}

/// The error of a database URL that is malformed.
pub open spec fn format_error(url: Seq<char>) -> (i32, Seq<Seq<char>>) {
    (error_code::URL_FORMAT_ERROR_2, seq![constant::URL_FORMAT@, url])
}

/// Whether `names` holds `s`.
fn names_contain(names: &Vec<&'static str>, s: &str) -> (r: bool)
    ensures
        r == names.deep_view().contains(s@),
{
    let mut i: usize = 0;
    while i < names.len()
        invariant
            i <= names@.len(),
            forall|j: int| 0 <= j < i ==> names.deep_view()[j] != s@,
        decreases names@.len() - i,
    {
        if str_eq(names[i], s) {
            proof {
                assert(names.deep_view()[i as int] == s@);
            }
            return true;
        }
        i = i + 1;
    }
    proof {
        if names.deep_view().contains(s@) {
            let j = choose|j: int| 0 <= j < names.deep_view().len() && names.deep_view()[j] == s@;
            assert(names.deep_view()[j] != s@);
        }
    }
    false
}

fn common_setting_names() -> (v: Vec<&'static str>)
    ensures
        v.deep_view() == common_settings(),
{
    let mut v: Vec<&'static str> = Vec::new();
    v.push("ACCESS_MODE_DATA");
    v.push("AUTO_RECONNECT");
    v.push("AUTO_SERVER");
    v.push("AUTO_SERVER_PORT");
    v.push("CACHE_TYPE");
    v.push("FILE_LOCK");
    v.push("JMX");
    v.push("NETWORK_TIMEOUT");
    v.push("OLD_INFORMATION_SCHEMA");
    v.push("OPEN_NEW");
    v.push("PAGE_SIZE");
    v.push("RECOVER");
    proof {
        assert(v.deep_view() =~= common_settings());
    }
    v
}

fn connection_setting_names() -> (v: Vec<&'static str>)
    ensures
        v.deep_view() == connection_settings(),
{
    let mut v: Vec<&'static str> = Vec::new();
    v.push("AUTHREALM");
    v.push("AUTHZPWD");
    v.push("AUTOCOMMIT");
    v.push("CIPHER");
    v.push("CREATE");
    v.push("FORBID_CREATION");
    v.push("IGNORE_UNKNOWN_SETTINGS");
    v.push("IFEXISTS");
    v.push("INIT");
    v.push("NO_UPGRADE");
    v.push("PASSWORD");
    v.push("PASSWORD_HASH");
    v.push("RECOVER_TEST");
    v.push("USER");
    proof {
        assert(v.deep_view() =~= connection_settings());
    }
    v
}

/// The view of a connection's description.
pub struct ConnectionInfoView {
    pub url: Seq<char>,
    pub original_url: Seq<char>,
    pub prop: Map<Seq<char>, Seq<char>>,
    pub user: Seq<char>,
    pub name: Seq<char>,
    pub name_normalized: Seq<char>,
    pub persistent: bool,
    pub remote: bool,
    pub ssl: bool,
    pub unnamed_in_memory: bool,
    pub user_password_hash: Option<Seq<u8>>,
    pub file_password_hash: Option<Seq<u8>>,
}

/// What a connection is opened with: the URL, the settings, the user and the
/// password hashes.
pub struct ConnectionInfo {
    /// The URL without its settings.
    pub url: String,
    /// The URL as it was given.
    pub original_url: String,
    /// The settings.
    pub prop: Properties,
    /// The user name, in upper case.
    pub user: String,
    /// The database name.
    pub name: String,
    /// The path of the database, once it was resolved.
    pub name_normalized: String,
    /// Whether the database is kept in files.
    pub persistent: bool,
    /// Whether the database is reached over the network.
    pub remote: bool,
    /// Whether the network connection is encrypted.
    pub ssl: bool,
    /// Whether this is an unnamed in-memory database.
    pub unnamed_in_memory: bool,
    /// The hash of the user password.
    pub user_password_hash: Option<Vec<u8>>,
    /// The hash of the file password.
    pub file_password_hash: Option<Vec<u8>>,
}

/// The view of an optional byte vector.
pub open spec fn bytes_view(b: Option<Vec<u8>>) -> Option<Seq<u8>> {
    match b {
        Some(v) => Some(v@),
        None => None,
    }
}

impl ConnectionInfo {
    /// The view of the description.
    pub open spec fn view_of(&self) -> ConnectionInfoView {
        ConnectionInfoView {
            url: self.url@,
            original_url: self.original_url@,
            prop: self.prop.map(),
            user: self.user@,
            name: self.name@,
            name_normalized: self.name_normalized@,
            persistent: self.persistent,
            remote: self.remote,
            ssl: self.ssl,
            unnamed_in_memory: self.unnamed_in_memory,
            user_password_hash: bytes_view(self.user_password_hash),
            file_password_hash: bytes_view(self.file_password_hash),
        }
    }

    /// The settings are in order.
    pub open spec fn wf(&self) -> bool {
        self.prop.wf()
    }

    /// Whether `self` and `other` agree on all but the URL and the settings.
    pub open spec fn agrees_beside_url_and_settings(&self, other: &ConnectionInfo) -> bool {
        &&& self.original_url == other.original_url
        &&& self.user == other.user
        &&& self.name == other.name
        &&& self.name_normalized == other.name_normalized
        &&& self.persistent == other.persistent
        &&& self.remote == other.remote
        &&& self.ssl == other.ssl
        &&& self.unnamed_in_memory == other.unnamed_in_memory
        &&& self.user_password_hash == other.user_password_hash
        &&& self.file_password_hash == other.file_password_hash
    }

    /// The error of a malformed URL, naming the URL.
    fn get_format_exception(&self) -> (e: DbError)
        ensures
            is_error(e, format_error(self.url@).0, format_error(self.url@).1),
    {
        DbError::get(error_code::URL_FORMAT_ERROR_2, two_params(constant::URL_FORMAT, self.url.as_str()))
    }

    /// Whether `setting` is a known setting.
    fn is_known_setting(setting: &str) -> (r: bool)
        ensures
            r == known_setting(setting@),
    {
        let types = get_types();
        if names_contain(&types, setting) {
            return true;
        }
        let common = common_setting_names();
        if names_contain(&common, setting) {
            return true;
        }
        let others = connection_setting_names();
        names_contain(&others, setting)
    }

    /// The settings of the database that the properties give: those whose keys
    /// are default database settings and no known settings.
    pub fn get_db_settings(&self) -> (r: Result<DbSettings, DbError>)
        requires
            self.wf(),
        ensures
            match db_settings_result(db_settings_of(self.prop.map())) {
                Ok(v) => r matches Ok(d) && d.wf() && d.view_of() == v,
                Err(x) => r matches Err(e) && is_error(e, x.0, x.1),
            },
    {
        let defaults = default_settings();
        let mut settings = Properties::new();
        let n = self.prop.len();
        let ghost keys = self.prop.key_seq();
        let ghost m = self.prop.map();
        proof {
            self.prop.lemma_wf();
        }
        let mut i: usize = 0;
        while i < n
            invariant
                self.wf(),
                defaults.wf(),
                forall|k: Seq<char>| defaults.settings_map().contains_key(k) <==> is_default_setting(k),
                n == keys.len(),
                keys == self.prop.key_seq(),
                m == self.prop.map(),
                i <= n,
                settings.wf(),
                forall|k: Seq<char>|
                    #[trigger] settings.map().contains_key(k) <==> (db_setting_key(k) && exists|j: int|
                        0 <= j < i && keys[j] == k),
                forall|k: Seq<char>| #[trigger] settings.map().contains_key(k) ==> settings.map()[k] == m[k],
            decreases n - i,
        {
            proof {
                self.prop.lemma_wf();
            }
            let key = self.prop.key_at(i);
            if !Self::is_known_setting(key.as_str()) && defaults.contains_key(key.as_str()) {
                let value = self.prop.value_at(i);
                settings.insert(key.clone(), value.clone());
            }
            proof {
                assert forall|k: Seq<char>|
                    #[trigger] settings.map().contains_key(k) <==> (db_setting_key(k) && exists|j: int|
                        0 <= j < i + 1 && keys[j] == k) by {
                    if db_setting_key(k) && exists|j: int| 0 <= j < i + 1 && keys[j] == k {
                        let j = choose|j: int| 0 <= j < i + 1 && keys[j] == k;
                        if j < i {
                            assert(exists|j: int| 0 <= j < i && keys[j] == k);
                        }
                    }
                }
            }
            i = i + 1;
        }
        proof {
            self.prop.lemma_wf();
            let target = db_settings_of(m);
            assert forall|k: Seq<char>| #[trigger] settings.map().contains_key(k) <==> target.contains_key(k) by {
                if m.contains_key(k) {
                    assert(keys.contains(k));
                    let j = choose|j: int| 0 <= j < keys.len() && keys[j] == k;
                    assert(exists|j: int| 0 <= j < n && keys[j] == k);
                }
                if exists|j: int| 0 <= j < n && keys[j] == k {
                    let j = choose|j: int| 0 <= j < n && keys[j] == k;
                    assert(keys.contains(k));
                }
            }
            assert(settings.map() =~= target);
        }
        DbSettings::new(settings)
    }

    /// Reads the given properties, each key in upper case; see `read_properties_outcome`.
    fn read_properties(&mut self, info: &Properties) -> (r: Result<(), DbError>)
        requires
            old(self).wf(),
            info.wf(),
        ensures
            final(self).wf(),
            final(self).url == old(self).url,
            final(self).agrees_beside_url_and_settings(old(self)),
            match read_properties_outcome(old(self).prop.map(), info.key_seq(), info.map()) {
                Ok(m) => r is Ok && final(self).prop.map() == m,
                Err(x) => r matches Err(e) && is_error(e, x.0, x.1),
            },
    {
        let db_settings = match self.get_db_settings() {
            Ok(d) => d,
            Err(e) => return Err(e),
        };
        let ghost m0 = self.prop.map();
        let ghost keys = info.key_seq();
        proof {
            info.lemma_wf();
            lemma_db_settings_keys(db_settings_of(m0));
        }
        let n = info.len();
        let mut i: usize = 0;
        while i < n
            invariant
                self.wf(),
                self.url == old(self).url,
                self.agrees_beside_url_and_settings(old(self)),
                info.wf(),
                db_settings.wf(),
                forall|k: Seq<char>|
                    db_settings.settings_map().contains_key(k) <==> (db_settings_of(m0).contains_key(k)
                        || is_default_setting(k)),
                n == keys.len(),
                keys == info.key_seq(),
                m0 == old(self).prop.map(),
                db_settings_result(db_settings_of(m0)) is Ok,
                i <= n,
                read_properties_upto(m0, keys, info.map(), i as nat) == Ok::<
                    Map<Seq<char>, Seq<char>>,
                    (i32, Seq<Seq<char>>),
                >(self.prop.map()),
            decreases n - i,
        {
            proof {
                info.lemma_wf();
            }
            let key = info.key_at(i);
            let uppercase_key = to_upper_english(key.as_str());
            if self.prop.contains_key(uppercase_key.as_str()) {
                proof {
                    let ghost x = (error_code::DUPLICATE_PROPERTY_1, seq![uppercase_key@]);
                    assert(read_properties_upto(m0, keys, info.map(), (i + 1) as nat) == Err::<
                        Map<Seq<char>, Seq<char>>,
                        (i32, Seq<Seq<char>>),
                    >(x));
                    lemma_read_error_stays(m0, keys, info.map(), (i + 1) as nat, n as nat);
                }
                return Err(DbError::get(error_code::DUPLICATE_PROPERTY_1, one_param(uppercase_key.as_str())));
            }
            let value = info.value_at(i);
            if Self::is_known_setting(uppercase_key.as_str()) {
                self.prop.insert(uppercase_key, value.clone());
            } else if db_settings.contains_key(uppercase_key.as_str()) {
                self.prop.insert(uppercase_key, value.clone());
            }
            i = i + 1;
        }
        Ok(())
    }

    /// Opens the description of a connection; see `connection_info_outcome`.
    pub fn new(url: String, info: &Properties, user: String, password: String) -> (r: Result<
        ConnectionInfo,
        DbError,
    >)
        requires
            info.wf(),
        ensures
            match connection_info_outcome(url@, info.key_seq(), info.map(), user@, password@) {
                Ok(v) => r matches Ok(c) && c.wf() && c.view_of() == v,
                Err(x) => r matches Err(e) && is_error(e, x.0, x.1),
            },
    {
        let mut connection_info = ConnectionInfo {
            url: String::new(),
            original_url: String::new(),
            prop: Properties::new(),
            user: String::new(),
            name: String::new(),
            name_normalized: String::new(),
            persistent: false,
            remote: false,
            ssl: false,
            unnamed_in_memory: false,
            user_password_hash: None,
            file_password_hash: None,
        };
        match connection_info.init(url, info, user, password) {
            Ok(()) => Ok(connection_info),
            Err(e) => Err(e),
        }
    }

    fn init(&mut self, url: String, info: &Properties, user: String, password: String) -> (r: Result<
        (),
        DbError,
    >)
        requires
            old(self).wf(),
            old(self).prop.map() == Map::<Seq<char>, Seq<char>>::empty(),
            !old(self).persistent,
            !old(self).remote,
            !old(self).ssl,
            !old(self).unnamed_in_memory,
            old(self).name_normalized@ == Seq::<char>::empty(),
            old(self).file_password_hash is None,
            info.wf(),
        ensures
            match connection_info_outcome(url@, info.key_seq(), info.map(), user@, password@) {
                Ok(v) => r is Ok && final(self).wf() && final(self).view_of() == v,
                Err(x) => r matches Err(e) && is_error(e, x.0, x.1),
            },
    {
        self.original_url = url.clone();
        self.url = url;
        if !str_starts_with(self.url.as_str(), constant::START_URL) {
            return Err(self.get_format_exception());
        }
        if !info.is_empty() {
            match self.read_properties(info) {
                Ok(()) => {},
                Err(e) => return Err(e),
            }
        } else {
            proof {
                assert(self.prop.map() =~= Map::<Seq<char>, Seq<char>>::empty());
            }
        }
        let ghost m0 = self.prop.map();
        let ghost uv = user@;
        let ghost pv = password@;
        if user.unicode_len() > 0 {
            self.prop.insert(to_owned_string("USER"), user);
        }
        let ghost m1 = self.prop.map();
        assert(m1 == if uv.len() > 0 { m0.insert("USER"@, uv) } else { m0 });
        if password.unicode_len() > 0 {
            self.prop.insert(to_owned_string("PASSWORD"), password);
        }
        let ghost m2 = self.prop.map();
        assert(m2 == if pv.len() > 0 { m1.insert("PASSWORD"@, pv) } else { m1 });
        proof {
            lemma_base_keeps_start(self.url@, self.prop.map());
        }
        let ghost outcome = url_settings_outcome(self.url@, m2);
        // The settings of the URL are read for what they store; an error among
        // them stops the reading but does not fail the connection.
        let _ = self.read_settings_from_url();
        assert(self.url@ == outcome.0);
        assert(self.prop.map() == outcome.1.props);
        let user_name = self.remove_property_str("USER", "");
        self.set_user_name(user_name);
        let c = chars_of(self.url.as_str());
        let start = chars_of(constant::START_URL).len();
        proof {
            reveal_strlit("jdbc:h2:");
        }
        self.name = string_of(chars_slice(c.as_slice(), start, c.len()).as_slice());
        assert(self.name@ == outcome.0.subrange(constant::START_URL@.len() as int, outcome.0.len() as int));
        self.parse_name();
        self.convert_passwords()
    }

    /// Reads the database name; see `parse_name_result`.
    fn parse_name(&mut self)
        ensures
            ({
                let (n, p, r, u) = parse_name_result(
                    old(self).name@,
                    old(self).persistent,
                    old(self).remote,
                    old(self).unnamed_in_memory,
                );
                &&& final(self).name@ == n
                &&& final(self).persistent == p
                &&& final(self).remote == r
                &&& final(self).unnamed_in_memory == u
            }),
            final(self).prop == old(self).prop,
            final(self).url == old(self).url,
            final(self).original_url == old(self).original_url,
            final(self).user == old(self).user,
            final(self).name_normalized == old(self).name_normalized,
            final(self).ssl == old(self).ssl,
            final(self).user_password_hash == old(self).user_password_hash,
            final(self).file_password_hash == old(self).file_password_hash,
    {
        proof {
            reveal_strlit(".");
            reveal_strlit("tcp:");
            reveal_strlit("ssl:");
            reveal_strlit("mem:");
            reveal_strlit("file:");
        }
        if str_eq(h2_rust_constant::DOT, self.name.as_str()) {
            self.name = to_owned_string("mem:");
        }
        let c = chars_of(self.name.as_str());
        if str_starts_with(self.name.as_str(), "tcp:") {
            self.remote = true;
            self.name = string_of(chars_slice(c.as_slice(), 4, c.len()).as_slice());
        } else if str_starts_with(self.name.as_str(), "ssl:") {
            self.remote = true;
            self.name = string_of(chars_slice(c.as_slice(), 4, c.len()).as_slice());
        } else if str_starts_with(self.name.as_str(), "mem:") {
            self.persistent = false;
            if str_eq("mem:", self.name.as_str()) {
                self.unnamed_in_memory = true;
            }
        } else if str_starts_with(self.name.as_str(), "file:") {
            self.persistent = true;
            self.name = string_of(chars_slice(c.as_slice(), 5, c.len()).as_slice());
        } else {
            self.persistent = true;
        }
        if self.persistent && !self.remote {
            self.name = name_separators_to_native(self.name.as_str());
        }
    }

    /// Takes out the password and `PASSWORD_HASH`, and sets the user password
    /// hash; see `password_hash_result`.
    fn convert_passwords(&mut self) -> (r: Result<(), DbError>)
        requires
            old(self).wf(),
        ensures
            ({
                let pw = text_or(old(self).prop.map(), "PASSWORD"@, ""@);
                let m1 = old(self).prop.map().remove("PASSWORD"@);
                let ph = parse_bool_value(text_or(m1, "PASSWORD_HASH"@, ""@), false);
                &&& final(self).wf()
                &&& final(self).prop.map() == m1.remove("PASSWORD_HASH"@)
                &&& match password_hash_result(ph, pw) {
                    Ok(h) => r is Ok && bytes_view(final(self).user_password_hash) == Some(h),
                    Err(x) => r matches Err(e) && is_error(e, x.0, x.1),
                }
            }),
            final(self).url == old(self).url,
            final(self).original_url == old(self).original_url,
            final(self).user == old(self).user,
            final(self).name == old(self).name,
            final(self).name_normalized == old(self).name_normalized,
            final(self).persistent == old(self).persistent,
            final(self).remote == old(self).remote,
            final(self).ssl == old(self).ssl,
            final(self).unnamed_in_memory == old(self).unnamed_in_memory,
            final(self).file_password_hash == old(self).file_password_hash,
    {
        let password = self.remove_password();
        let password_hash = match self.remove_property_bool("PASSWORD_HASH", false) {
            Ok(b) => b,
            Err(e) => return Err(e),
        };
        let hash = match Self::hash_password(password_hash, self.user.as_str(), password.as_str()) {
            Ok(h) => h,
            Err(e) => return Err(e),
        };
        self.user_password_hash = Some(hash);
        Ok(())
    }

    /// Takes out the password, empty where there is none.
    fn remove_password(&mut self) -> (r: String)
        requires
            old(self).wf(),
        ensures
            final(self).wf(),
            r@ == text_or(old(self).prop.map(), "PASSWORD"@, ""@),
            final(self).prop.map() == old(self).prop.map().remove("PASSWORD"@),
            final(self).url == old(self).url,
            final(self).original_url == old(self).original_url,
            final(self).user == old(self).user,
            final(self).name == old(self).name,
            final(self).name_normalized == old(self).name_normalized,
            final(self).persistent == old(self).persistent,
            final(self).remote == old(self).remote,
            final(self).ssl == old(self).ssl,
            final(self).unnamed_in_memory == old(self).unnamed_in_memory,
            final(self).user_password_hash == old(self).user_password_hash,
            final(self).file_password_hash == old(self).file_password_hash,
    {
        proof {
            reveal_strlit("");
        }
        match self.prop.remove("PASSWORD") {
            Some(password) => password,
            None => String::new(),
        }
    }

    /// The hash of a password; see `password_hash_result`. The user name plays
    /// no part.
    fn hash_password(password_hash: bool, user_name: &str, password: &str) -> (r: Result<Vec<u8>, DbError>)
        ensures
            match password_hash_result(password_hash, password@) {
                Ok(h) => r matches Ok(v) && v@ == h,
                Err(x) => r matches Err(e) && is_error(e, x.0, x.1),
            },
    {
        if password_hash {
            return convert_hex_to_byte_vec(password);
        }
        Ok(Vec::new())
    }

    /// The path of the database, where `name_is_absolute` tells whether the
    /// database name is an absolute path on this platform. A database in
    /// memory, or one whose path is known, gives its name or path. Otherwise
    /// the path is resolved (see `resolve_database_path`) from `real_path`,
    /// the real path that the file system gives for the database file, and
    /// kept; where `real_path` is `None`, the file whose real path is needed
    /// is given instead.
    pub fn database_path_for(&mut self, real_path: Option<&str>, name_is_absolute: bool) -> (r: Result<
        DatabasePath,
        DbError,
    >)
        requires
            old(self).wf(),
        ensures
            final(self).wf(),
            final(self).prop == old(self).prop,
            final(self).url == old(self).url,
            final(self).original_url == old(self).original_url,
            final(self).user == old(self).user,
            final(self).name == old(self).name,
            final(self).persistent == old(self).persistent,
            final(self).remote == old(self).remote,
            final(self).ssl == old(self).ssl,
            final(self).unnamed_in_memory == old(self).unnamed_in_memory,
            final(self).user_password_hash == old(self).user_password_hash,
            final(self).file_password_hash == old(self).file_password_hash,
            !old(self).persistent ==> (r matches Ok(DatabasePath::Path(p)) && p@ == old(self).name@)
                && final(self).name_normalized == old(self).name_normalized,
            old(self).persistent && old(self).name_normalized@.len() > 0 ==> (r matches Ok(
                DatabasePath::Path(p),
            ) && p@ == old(self).name_normalized@) && final(self).name_normalized
                == old(self).name_normalized,
            old(self).persistent && old(self).name_normalized@.len() == 0 ==> match resolve_database_path(
                old(self).name@,
                old(self).original_url@,
                str_view(real_path),
                name_is_absolute,
            ) {
                Ok(Some(p)) => (r matches Ok(DatabasePath::Path(q)) && q@ == p) && final(self).name_normalized@
                    == p,
                Ok(None) => (r matches Ok(DatabasePath::RealPathNeeded(f)) && f@ == old(self).name@
                    + constant::SUFFIX_MV_FILE@) && final(self).name_normalized == old(self).name_normalized,
                Err(x) => (r matches Err(e) && is_error(e, x.0, x.1)) && final(self).name_normalized
                    == old(self).name_normalized,
            },
    {
        if !self.persistent {
            return Ok(DatabasePath::Path(self.name.clone()));
        }
        if self.name_normalized.unicode_len() == 0 {
            proof {
                reveal_strlit("");
            }
            let n = chars_of(self.name.as_str());
            let dot_slash = chars_of("./");
            let dot_backslash = chars_of(".\\");
            let colon_slash = chars_of(":/");
            let colon_backslash = chars_of(":\\");
            if !name_is_absolute && !chars_contains(n.as_slice(), dot_slash.as_slice()) && !chars_contains(
                n.as_slice(),
                dot_backslash.as_slice(),
            ) && !chars_contains(n.as_slice(), colon_slash.as_slice()) && !chars_contains(
                n.as_slice(),
                colon_backslash.as_slice(),
            ) {
                return Err(DbError::get(error_code::URL_RELATIVE_TO_CWD, one_param(self.original_url.as_str())));
            }
            let resolved = match real_path {
                Some(p) => p,
                None => {
                    return Ok(DatabasePath::RealPathNeeded(str_concat(self.name.as_str(), constant::SUFFIX_MV_FILE)));
                },
            };
            let rc = chars_of(resolved);
            let file_name = last_segment_of(rc.as_slice());
            let suffix_len = chars_of(constant::SUFFIX_MV_FILE).len();
            if file_name.len() <= suffix_len {
                return Err(DbError::get(error_code::INVALID_DATABASE_NAME_1, one_param(self.name.as_str())));
            }
            proof {
                lemma_last_segment_is_suffix(rc@);
            }
            self.name_normalized = string_of(chars_slice(rc.as_slice(), 0, rc.len() - suffix_len).as_slice());
        }
        Ok(DatabasePath::Path(self.name_normalized.clone()))
    }

    /// The path of the database; see `database_path_for`, with whether the
    /// database name is an absolute path as `is_absolute` tells it on this
    /// platform.
    pub fn get_database_path(&mut self, real_path: Option<&str>) -> (r: Result<DatabasePath, DbError>)
        requires
            old(self).wf(),
        ensures
            final(self).wf(),
            exists|name_is_absolute: bool|
                #![trigger absolute_claims(old(self).name@, name_is_absolute)]
                absolute_claims(old(self).name@, name_is_absolute) && database_path_done(
                    *old(self),
                    *final(self),
                    str_view(real_path),
                    name_is_absolute,
                    r,
                ),
    {
        let name_is_absolute = is_absolute(self.name.as_str());
        self.database_path_for(real_path, name_is_absolute)
    }

    /// Reads one `key=value` setting of the URL; see `url_setting_step`.
    fn read_url_setting(&mut self, piece: &[char], unknown: &mut String, defaults: &DbSettings) -> (r: Result<
        (),
        DbError,
    >)
        requires
            old(self).wf(),
            defaults.wf(),
            forall|k: Seq<char>| defaults.settings_map().contains_key(k) <==> is_default_setting(k),
        ensures
            ({
                let st = url_setting_step(
                    UrlScan { props: old(self).prop.map(), unknown: old(unknown)@, error: None },
                    piece@,
                    old(self).url@,
                );
                &&& final(self).wf()
                &&& final(self).prop.map() == st.props
                &&& final(unknown)@ == st.unknown
                &&& final(self).url == old(self).url
                &&& final(self).agrees_beside_url_and_settings(old(self))
                &&& match st.error {
                    Some(x) => r matches Err(e) && is_error(e, x.0, x.1),
                    None => r is Ok,
                }
            }),
    {
        if piece.len() == 0 {
            return Ok(());
        }
        let equal = match chars_find(piece, '=') {
            Some(i) => i,
            None => return Err(self.get_format_exception()),
        };
        let key_chars = chars_slice(piece, 0, equal);
        let key_text = string_of(key_chars.as_slice());
        let key = to_upper_english(key_text.as_str());
        let value_chars = chars_slice(piece, equal + 1, piece.len());
        let value = string_of(value_chars.as_slice());
        if Self::is_known_setting(key.as_str()) || defaults.contains_key(key.as_str()) {
            match self.prop.get(key.as_str()) {
                Some(old_value) => {
                    if str_eq(old_value.as_str(), value.as_str()) {
                        return Err(DbError::get(error_code::DUPLICATE_PROPERTY_1, one_param(key.as_str())));
                    }
                },
                None => {
                    self.prop.insert(key, value);
                },
            }
        } else {
            *unknown = key;
        }
        Ok(())
    }

    /// Moves the settings of the URL, after its first `;`, into the properties;
    /// see `url_settings_outcome` and `url_settings_error`.
    fn read_settings_from_url(&mut self) -> (r: Result<(), DbError>)
        requires
            old(self).wf(),
        ensures
            ({
                let (base, st) = url_settings_outcome(old(self).url@, old(self).prop.map());
                &&& final(self).wf()
                &&& final(self).url@ == base
                &&& final(self).prop.map() == st.props
                &&& final(self).agrees_beside_url_and_settings(old(self))
                &&& match url_settings_error(st) {
                    Some(x) => r matches Err(e) && is_error(e, x.0, x.1),
                    None => r is Ok,
                }
            }),
    {
        let u = chars_of(self.url.as_str());
        let index = match chars_find(u.as_slice(), ';') {
            Some(i) => i,
            None => return Ok(()),
        };
        let n = u.len();
        assert(index < n);
        let defaults = default_settings();
        let rest = chars_slice(u.as_slice(), index + 1, n);
        let base = chars_slice(u.as_slice(), 0, index);
        self.url = string_of(base.as_slice());
        let mut unknown = String::new();
        let mut piece: Vec<char> = Vec::new();
        let ghost st0 = UrlScan { props: self.prop.map(), unknown: seq![], error: None };
        let ghost target = url_settings_scan(st0, seq![], rest@, base@);
        proof {
            assert(unknown@ =~= seq![]);
            assert(piece@ =~= seq![]);
            assert(rest@.subrange(0, rest@.len() as int) =~= rest@);
        }
        let mut i: usize = 0;
        while i < rest.len()
            invariant
                self.wf(),
                self.url@ == base@,
                self.agrees_beside_url_and_settings(old(self)),
                defaults.wf(),
                forall|k: Seq<char>| defaults.settings_map().contains_key(k) <==> is_default_setting(k),
                i <= rest@.len(),
                url_settings_outcome(old(self).url@, old(self).prop.map()) == (base@, target),
                url_settings_scan(
                    UrlScan { props: self.prop.map(), unknown: unknown@, error: None },
                    piece@,
                    rest@.subrange(i as int, rest@.len() as int),
                    base@,
                ) == target,
            decreases rest@.len() - i,
        {
            let ghost tail = rest@.subrange(i as int, rest@.len() as int);
            proof {
                assert(tail.drop_first() =~= rest@.subrange(i + 1, rest@.len() as int));
            }
            let c = rest[i];
            if c == ';' {
                let ghost st = UrlScan { props: self.prop.map(), unknown: unknown@, error: None };
                match self.read_url_setting(piece.as_slice(), &mut unknown, &defaults) {
                    Ok(()) => {},
                    Err(e) => {
                        proof {
                            let st2 = url_setting_step(st, piece@, base@);
                            assert(tail[0] == ';');
                            assert(url_settings_scan(st, piece@, tail, base@) == url_settings_scan(
                                st2,
                                seq![],
                                tail.drop_first(),
                                base@,
                            ));
                            lemma_scan_after_error(st2, seq![], rest@.subrange(i + 1, rest@.len() as int), base@);
                        }
                        return Err(e);
                    },
                }
                piece = Vec::new();
                proof {
                    assert(piece@ =~= seq![]);
                }
            } else {
                piece.push(c);
            }
            i = i + 1;
        }
        proof {
            assert(rest@.subrange(i as int, rest@.len() as int) =~= seq![]);
        }
        match self.read_url_setting(piece.as_slice(), &mut unknown, &defaults) {
            Ok(()) => {},
            Err(e) => return Err(e),
        }
        if unknown.unicode_len() > 0 {
            match self.prop.get("IGNORE_UNKNOWN_SETTINGS") {
                Some(s) => {
                    match parse_bool(s.as_str(), false, false) {
                        Ok(b) => {
                            if !b {
                                return Err(
                                    DbError::get(error_code::UNSUPPORTED_SETTING_1, one_param(unknown.as_str())),
                                );
                            }
                        },
                        Err(e) => return Err(e),
                    }
                },
                None => {},
            }
        }
        Ok(())
    }

    /// Removes the setting `key` and gives its value, or `default_value` where
    /// it is missing.
    pub fn remove_property_str(&mut self, key: &str, default_value: &str) -> (r: String)
        requires
            old(self).wf(),
        ensures
            final(self).wf(),
            r@ == text_or(old(self).prop.map(), key@, default_value@),
            final(self).prop.map() == old(self).prop.map().remove(key@),
            final(self).url == old(self).url,
            final(self).original_url == old(self).original_url,
            final(self).user == old(self).user,
            final(self).name == old(self).name,
            final(self).name_normalized == old(self).name_normalized,
            final(self).persistent == old(self).persistent,
            final(self).remote == old(self).remote,
            final(self).ssl == old(self).ssl,
            final(self).unnamed_in_memory == old(self).unnamed_in_memory,
            final(self).user_password_hash == old(self).user_password_hash,
            final(self).file_password_hash == old(self).file_password_hash,
    {
        match self.prop.remove(key) {
            Some(v) => v,
            None => to_owned_string(default_value),
        }
    }

    /// Removes the setting `key` and reads it as a boolean, `default_value`
    /// where it is missing or no boolean word.
    pub fn remove_property_bool(&mut self, key: &str, default_value: bool) -> (r: Result<bool, DbError>)
        requires
            old(self).wf(),
        ensures
            final(self).wf(),
            r == Ok::<bool, DbError>(
                parse_bool_value(text_or(old(self).prop.map(), key@, ""@), default_value),
            ),
            final(self).prop.map() == old(self).prop.map().remove(key@),
            final(self).url == old(self).url,
            final(self).original_url == old(self).original_url,
            final(self).user == old(self).user,
            final(self).name == old(self).name,
            final(self).name_normalized == old(self).name_normalized,
            final(self).persistent == old(self).persistent,
            final(self).remote == old(self).remote,
            final(self).ssl == old(self).ssl,
            final(self).unnamed_in_memory == old(self).unnamed_in_memory,
            final(self).user_password_hash == old(self).user_password_hash,
            final(self).file_password_hash == old(self).file_password_hash,
    {
        let s = self.remove_property_str(key, "");
        parse_bool(s.as_str(), default_value, false)
    }

    /// Sets the user name to `name` in upper case.
    pub fn set_user_name(&mut self, name: String)
        ensures
            final(self).user@ == upper_case_of(name@),
            final(self).prop == old(self).prop,
            final(self).url == old(self).url,
            final(self).original_url == old(self).original_url,
            final(self).name == old(self).name,
            final(self).name_normalized == old(self).name_normalized,
            final(self).persistent == old(self).persistent,
            final(self).remote == old(self).remote,
            final(self).ssl == old(self).ssl,
            final(self).unnamed_in_memory == old(self).unnamed_in_memory,
            final(self).user_password_hash == old(self).user_password_hash,
            final(self).file_password_hash == old(self).file_password_hash,
    {
        self.user = to_upper_english(name.as_str());
    }

    /// Stores the setting `key` with `value`, unless `value` is empty.
    pub fn set_property(&mut self, key: &str, value: &str)
        requires
            old(self).wf(),
        ensures
            final(self).wf(),
            value@.len() > 0 ==> final(self).prop.map() == old(self).prop.map().insert(key@, value@),
            value@.len() == 0 ==> final(self).prop == old(self).prop,
            final(self).url == old(self).url,
            final(self).original_url == old(self).original_url,
            final(self).user == old(self).user,
            final(self).name == old(self).name,
            final(self).name_normalized == old(self).name_normalized,
            final(self).persistent == old(self).persistent,
            final(self).remote == old(self).remote,
            final(self).ssl == old(self).ssl,
            final(self).unnamed_in_memory == old(self).unnamed_in_memory,
            final(self).user_password_hash == old(self).user_password_hash,
            final(self).file_password_hash == old(self).file_password_hash,
    {
        if value.unicode_len() > 0 {
            self.prop.insert(to_owned_string(key), to_owned_string(value));
        }
    }

    /// Reads the text `key` itself as a boolean (false where it is no boolean
    /// word); the setting stored under `key` and `default_value` play no part.
    pub fn get_property_bool(&self, key: &str, default_value: bool) -> (r: Result<bool, DbError>)
        requires
            self.wf(),
        ensures
            r == Ok::<bool, DbError>(parse_bool_value(key@, false)),
    {
        let _s = self.get_property_string(key, "");
        parse_bool(key, false, false)
    }

    /// The setting `key` read as a decimal `i32`, or `default_value` where it is
    /// missing; see `int_property`.
    pub fn get_property_int(&self, key: &str, default_value: i32) -> (r: Result<i32, DbError>)
        requires
            self.wf(),
        ensures
            match int_property(self.prop.map(), key@, default_value) {
                Ok(v) => r == Ok::<i32, DbError>(v),
                Err(x) => r matches Err(e) && is_error(e, x.0, x.1),
            },
    {
        match self.get_property(key) {
            Some(s) => {
                let c = chars_of(s.as_str());
                match parse_i32_radix(c.as_slice(), 10) {
                    Some(v) => Ok(v),
                    None => Err(DbError::get(error_code::DATA_CONVERSION_ERROR_1, one_param(s.as_str()))),
                }
            },
            None => Ok(default_value),
        }
    }

    /// The setting `key`, or `default_value` where it is missing.
    pub fn get_property_string(&self, key: &str, default_value: &str) -> (r: String)
        requires
            self.wf(),
        ensures
            r@ == text_or(self.prop.map(), key@, default_value@),
    {
        match self.get_property(key) {
            Some(s) => s,
            None => to_owned_string(default_value),
        }
    }

    /// The setting `key`, if present.
    pub fn get_property(&self, key: &str) -> (r: Option<String>)
        requires
            self.wf(),
        ensures
            match r {
                Some(v) => self.prop.map().contains_key(key@) && v@ == self.prop.map()[key@],
                None => !self.prop.map().contains_key(key@),
            },
    {
        self.prop.get(key)
    }
}


/// An opened connection description keeps neither the user, nor the password,
/// nor whether it was given as a hash, among its settings.
pub proof fn law_no_credentials_kept(
    url: Seq<char>,
    info_keys: Seq<Seq<char>>,
    info: Map<Seq<char>, Seq<char>>,
    user: Seq<char>,
    password: Seq<char>,
)
    ensures
        connection_info_outcome(url, info_keys, info, user, password) matches Ok(v) ==> !v.prop.contains_key(
            "USER"@,
        ) && !v.prop.contains_key("PASSWORD"@) && !v.prop.contains_key("PASSWORD_HASH"@),
{
}

/// The URL of an opened connection description holds no settings: it has no `;`.
pub proof fn law_url_without_settings(
    url: Seq<char>,
    info_keys: Seq<Seq<char>>,
    info: Map<Seq<char>, Seq<char>>,
    user: Seq<char>,
    password: Seq<char>,
)
    ensures
        connection_info_outcome(url, info_keys, info, user, password) matches Ok(v) ==> !v.url.contains(';'),
{
    lemma_first_index_of(url, ';');
    if let Some(i) = first_index_of(url, ';') {
        let base = url.subrange(0, i);
        if base.contains(';') {
            let j = choose|j: int| 0 <= j < base.len() && base[j] == ';';
            assert(url[j] == ';');
        }
    } else {
        if url.contains(';') {
            let j = choose|j: int| 0 <= j < url.len() && url[j] == ';';
            assert(url[j] == ';');
        }
    }
}

/// A database name that begins with `tcp:` or `ssl:` (the URL after `jdbc:h2:`,
/// without its settings) opens a remote connection to the rest of the name
/// after that prefix; a name that begins with neither opens a local one.
pub proof fn law_remote_prefixes(
    url: Seq<char>,
    info_keys: Seq<Seq<char>>,
    info: Map<Seq<char>, Seq<char>>,
    user: Seq<char>,
    password: Seq<char>,
)
    ensures
        connection_info_outcome(url, info_keys, info, user, password) matches Ok(v) ==> {
            let n = v.url.subrange(constant::START_URL@.len() as int, v.url.len() as int);
            let remote_prefix = is_prefix("tcp:"@, n) || is_prefix("ssl:"@, n);
            &&& v.remote <==> remote_prefix
            &&& remote_prefix ==> v.name == n.subrange(4, n.len() as int)
        },
{
    reveal_strlit(".");
    reveal_strlit("tcp:");
    reveal_strlit("ssl:");
    reveal_strlit("mem:");
    reveal_strlit("file:");
    if connection_info_outcome(url, info_keys, info, user, password) is Ok {
        let v = connection_info_outcome(url, info_keys, info, user, password)->Ok_0;
        let n = v.url.subrange(constant::START_URL@.len() as int, v.url.len() as int);
        if n == "."@ {
            assert(!is_prefix("tcp:"@, n));
            assert(!is_prefix("ssl:"@, n));
            let m = "mem:"@;
            assert(m.subrange(0, 4) =~= m);
            assert(m[0] != "tcp:"@[0]);
            assert(!is_prefix("tcp:"@, m));
            assert(m[0] != "ssl:"@[0]);
            assert(!is_prefix("ssl:"@, m));
        } else if is_prefix("tcp:"@, n) {
            assert(n.subrange(0, 4)[0] == 't');
            assert(!is_prefix("ssl:"@, n) || n.subrange(0, 4)[0] == 's');
        }
    }
}

} // verus!
