use vstd::prelude::*;
use crate::api::error_code;
use crate::h2_rust_common::h2_rust_utils::{
    decode_error_param,
    decoded_integer,
    integer_decode,
    integer_decodes,
    law_decode_decimal,
};
use crate::util::numfmt::decimal_of;
use crate::h2_rust_common::properties::Properties;
use crate::message::db_error::{DbError, is_error, one_param};
use crate::util::chars::to_owned_string;
use crate::util::utils::{bool_error_param, parse_bool, parse_bool_fails, parse_bool_value};

verus! {

/// The expected number of settings.
pub const TABLE_SIZE: i32 = 64;

/// The text of a boolean: `true` or `false`.
pub open spec fn bool_text(b: bool) -> Seq<char> {
    if b {
        "true"@
    } else {
        "false"@
    }
}

/// The text stored under `key`, or `d` where there is none.
pub open spec fn text_or(m: Map<Seq<char>, Seq<char>>, key: Seq<char>, d: Seq<char>) -> Seq<char> {
    if m.contains_key(key) {
        m[key]
    } else {
        d
    }
}

/// `m` with `d` stored under `key` where there was nothing.
pub open spec fn with_default(m: Map<Seq<char>, Seq<char>>, key: Seq<char>, d: Seq<char>) -> Map<Seq<char>, Seq<char>> {
    if m.contains_key(key) {
        m
    } else {
        m.insert(key, d)
    }
}

/// Whether the boolean setting `key` (default `d`) reads.
pub open spec fn bool_reads(m: Map<Seq<char>, Seq<char>>, key: Seq<char>, d: bool) -> bool {
    !parse_bool_fails(text_or(m, key, bool_text(d)), true)
}

/// The value of the boolean setting `key` (default `d`).
pub open spec fn bool_value(m: Map<Seq<char>, Seq<char>>, key: Seq<char>, d: bool) -> bool {
    parse_bool_value(text_or(m, key, bool_text(d)), d)
}

/// The error of a boolean setting that does not read.
pub open spec fn bool_error(m: Map<Seq<char>, Seq<char>>, key: Seq<char>, d: bool) -> (i32, Seq<Seq<char>>) {
    (error_code::DATA_CONVERSION_ERROR_1, seq![bool_error_param(text_or(m, key, bool_text(d)))])
}

/// The settings that a map of settings gives.
pub struct DbSettingsView {
    pub settings: Map<Seq<char>, Seq<char>>,
    pub database_to_upper: bool,
    pub database_to_lower: bool,
    pub db_close_on_exit: bool,
    pub ignore_catalogs: bool,
    pub mv_store: bool,
}

/// What `DbSettings::new` gives for the settings `m`: the error of the first
/// boolean setting that does not read, in the order `DATABASE_TO_LOWER`,
/// `DATABASE_TO_UPPER`, `DB_CLOSE_ON_EXIT`, `IGNORE_CATALOGS`, `MV_STORE`, or
/// the conflict of both case settings where `DATABASE_TO_UPPER` was given;
/// otherwise the settings, with the defaults and the two resolved case settings
/// stored.
pub open spec fn db_settings_result(m: Map<Seq<char>, Seq<char>>) -> Result<DbSettingsView, (i32, Seq<Seq<char>>)> {
    let k_lower = "DATABASE_TO_LOWER"@;
    let k_upper = "DATABASE_TO_UPPER"@;
    let k_close = "DB_CLOSE_ON_EXIT"@;
    let k_catalogs = "IGNORE_CATALOGS"@;
    let k_mv = "MV_STORE"@;
    if !bool_reads(m, k_lower, false) {
        Err(bool_error(m, k_lower, false))
    } else {
        let m1 = with_default(m, k_lower, bool_text(false));
        let lower = bool_value(m, k_lower, false);
        if !bool_reads(m1, k_upper, true) {
            Err(bool_error(m1, k_upper, true))
        } else {
            let m2 = with_default(m1, k_upper, bool_text(true));
            let upper0 = bool_value(m1, k_upper, true);
            if lower && upper0 && m1.contains_key(k_upper) {
                Err((error_code::UNSUPPORTED_SETTING_COMBINATION, seq!["DATABASE_TO_LOWER & DATABASE_TO_UPPER"@]))
            } else {
                let upper = upper0 && !lower;
                let m3 = m2.insert(k_lower, bool_text(lower)).insert(k_upper, bool_text(upper));
                if !bool_reads(m3, k_close, true) {
                    Err(bool_error(m3, k_close, true))
                } else {
                    let m4 = with_default(m3, k_close, bool_text(true));
                    if !bool_reads(m4, k_catalogs, false) {
                        Err(bool_error(m4, k_catalogs, false))
                    } else {
                        let m5 = with_default(m4, k_catalogs, bool_text(false));
                        if !bool_reads(m5, k_mv, true) {
                            Err(bool_error(m5, k_mv, true))
                        } else {
                            Ok(DbSettingsView {
                                settings: with_default(m5, k_mv, bool_text(true)),
                                database_to_upper: upper,
                                database_to_lower: lower,
                                db_close_on_exit: bool_value(m3, k_close, true),
                                ignore_catalogs: bool_value(m4, k_catalogs, false),
                                mv_store: bool_value(m5, k_mv, true),
                            })
                        }
                    }
                }
            }
        }
    }
}

/// The names that every settings map holds after `DbSettings::new`.
pub open spec fn is_default_setting(k: Seq<char>) -> bool {
    ||| k == "DATABASE_TO_LOWER"@
    ||| k == "DATABASE_TO_UPPER"@
    ||| k == "DB_CLOSE_ON_EXIT"@
    ||| k == "IGNORE_CATALOGS"@
    ||| k == "MV_STORE"@
}

/// The settings of a database.
pub struct DbSettings {
    pub settings: Properties,
    pub database_to_upper: bool,
    pub database_to_lower: bool,
    pub db_close_on_exit: bool,
    pub ignore_catalogs: bool,
    pub mv_store: bool,
}

impl DbSettings {
    /// The settings map, with what reading settings stored in it.
    pub open spec fn settings_map(&self) -> Map<Seq<char>, Seq<char>> {
        self.settings.map()
    }

    /// The settings are in order.
    pub open spec fn wf(&self) -> bool {
        self.settings.wf()
    }

    /// The view of the settings.
    pub open spec fn view_of(&self) -> DbSettingsView {
        DbSettingsView {
            settings: self.settings_map(),
            database_to_upper: self.database_to_upper,
            database_to_lower: self.database_to_lower,
            db_close_on_exit: self.db_close_on_exit,
            ignore_catalogs: self.ignore_catalogs,
            mv_store: self.mv_store,
        }
    }

    /// Reads the settings `settings` (see `db_settings_result`).
    pub fn new(settings: Properties) -> (r: Result<DbSettings, DbError>)
        requires
            settings.wf(),
        ensures
            match db_settings_result(settings.map()) {
                Ok(v) => r matches Ok(d) && d.wf() && d.view_of() == v,
                Err(x) => r matches Err(e) && is_error(e, x.0, x.1),
            },
    {
        let mut db_settings = DbSettings {
            settings,
            database_to_upper: false,
            database_to_lower: false,
            db_close_on_exit: false,
            ignore_catalogs: false,
            mv_store: false,
        };
        match db_settings.init() {
            Ok(()) => Ok(db_settings),
            Err(e) => Err(e),
        }
    }

    fn init(&mut self) -> (r: Result<(), DbError>)
        requires
            old(self).wf(),
        ensures
            final(self).wf(),
            match db_settings_result(old(self).settings_map()) {
                Ok(v) => r is Ok && final(self).view_of() == v,
                Err(x) => r matches Err(e) && is_error(e, x.0, x.1),
            },
    {
        let ghost m = self.settings_map();
        let lower = match self.get_bool("DATABASE_TO_LOWER", false) {
            Ok(b) => b,
            Err(e) => return Err(e),
        };
        let upper_set = self.contains_key("DATABASE_TO_UPPER");
        let mut upper = match self.get_bool("DATABASE_TO_UPPER", true) {
            Ok(b) => b,
            Err(e) => return Err(e),
        };
        if lower && upper {
            if upper_set {
                return Err(
                    DbError::get(
                        error_code::UNSUPPORTED_SETTING_COMBINATION,
                        one_param("DATABASE_TO_LOWER & DATABASE_TO_UPPER"),
                    ),
                );
            }
            upper = false;
        }
        self.database_to_lower = lower;
        self.database_to_upper = upper;
        self.settings.insert(to_owned_string("DATABASE_TO_LOWER"), bool_to_string(lower));
        self.settings.insert(to_owned_string("DATABASE_TO_UPPER"), bool_to_string(upper));
        self.db_close_on_exit = match self.get_bool("DB_CLOSE_ON_EXIT", true) {
            Ok(b) => b,
            Err(e) => return Err(e),
        };
        self.ignore_catalogs = match self.get_bool("IGNORE_CATALOGS", false) {
            Ok(b) => b,
            Err(e) => return Err(e),
        };
        self.mv_store = match self.get_bool("MV_STORE", true) {
            Ok(b) => b,
            Err(e) => return Err(e),
        };
        proof {
            assert(self.view_of().settings == self.settings_map());
        }
        Ok(())
    }

    /// Reads the boolean setting `key`, storing the default where it is missing.
    /// A value that is no boolean is the error `DATA_CONVERSION_ERROR_1`.
    pub fn get_bool(&mut self, key: &str, default_value: bool) -> (r: Result<bool, DbError>)
        requires
            old(self).wf(),
        ensures
            final(self).wf(),
            final(self).settings_map() == with_default(old(self).settings_map(), key@, bool_text(default_value)),
            final(self).database_to_upper == old(self).database_to_upper,
            final(self).database_to_lower == old(self).database_to_lower,
            final(self).db_close_on_exit == old(self).db_close_on_exit,
            final(self).ignore_catalogs == old(self).ignore_catalogs,
            final(self).mv_store == old(self).mv_store,
            bool_reads(old(self).settings_map(), key@, default_value) ==> r == Ok::<bool, DbError>(
                bool_value(old(self).settings_map(), key@, default_value),
            ),
            !bool_reads(old(self).settings_map(), key@, default_value) ==> (r matches Err(e) && is_error(
                e,
                bool_error(old(self).settings_map(), key@, default_value).0,
                bool_error(old(self).settings_map(), key@, default_value).1,
            )),
    {
        let d = bool_to_string(default_value);
        let s = self.get_string(key, d.as_str());
        parse_bool(s.as_str(), default_value, true)
    }

    /// Reads the number setting `key` (as `integer_decode` reads it), storing
    /// the decimal default where it is missing.
    pub fn get_int(&mut self, key: &str, default_value: i32) -> (r: Result<i32, DbError>)
        requires
            old(self).wf(),
        ensures
            final(self).wf(),
            ({
                let d = crate::util::numfmt::decimal_of(default_value as int);
                let t = text_or(old(self).settings_map(), key@, d);
                &&& final(self).settings_map() == with_default(old(self).settings_map(), key@, d)
                &&& integer_decodes(t) ==> r == Ok::<i32, DbError>(decoded_integer(t)->0 as i32)
                &&& !integer_decodes(t) ==> (r matches Err(e) && is_error(
                    e,
                    error_code::DATA_CONVERSION_ERROR_1,
                    seq![decode_error_param(t)],
                ))
            }),
    {
        let d = crate::util::numfmt::i32_to_decimal(default_value);
        let s = self.get_string(key, d.as_str());
        integer_decode(s.as_str())
    }

    /// The setting `key`; where it is missing, the default, which is stored.
    pub fn get_string(&mut self, key: &str, default_value: &str) -> (r: String)
        requires
            old(self).wf(),
        ensures
            final(self).wf(),
            r@ == text_or(old(self).settings_map(), key@, default_value@),
            final(self).settings_map() == with_default(old(self).settings_map(), key@, default_value@),
            final(self).database_to_upper == old(self).database_to_upper,
            final(self).database_to_lower == old(self).database_to_lower,
            final(self).db_close_on_exit == old(self).db_close_on_exit,
            final(self).ignore_catalogs == old(self).ignore_catalogs,
            final(self).mv_store == old(self).mv_store,
    {
        match self.settings.get(key) {
            Some(s) => {
                proof {
                    assert(self.settings_map() =~= with_default(old(self).settings_map(), key@, default_value@));
                }
                s
            },
            None => {
                self.settings.insert(to_owned_string(key), to_owned_string(default_value));
                to_owned_string(default_value)
            },
        }
    }

    /// Whether the setting `key` is present.
    pub fn contains_key(&self, key: &str) -> (r: bool)
        requires
            self.wf(),
        ensures
            r == self.settings_map().contains_key(key@),
    {
        self.settings.contains_key(key)
    }
}

/// `true` or `false`.
pub fn bool_to_string(b: bool) -> (s: String)
    ensures
        s@ == bool_text(b),
{
    if b {
        to_owned_string("true")
    } else {
        to_owned_string("false")
    }
}

/// The settings read from no settings at all: all defaults.
pub fn default_settings() -> (d: DbSettings)
    ensures
        d.wf(),
        forall|k: Seq<char>| d.settings_map().contains_key(k) <==> is_default_setting(k),
{
    let empty = Properties::new();
    proof {
        lemma_defaults_read();
    }
    match DbSettings::new(empty) {
        Ok(d) => {
            proof {
                let m0 = Map::<Seq<char>, Seq<char>>::empty();
                let v = db_settings_result(m0)->Ok_0;
                assert forall|k: Seq<char>| d.settings_map().contains_key(k) <==> is_default_setting(k) by {
                }
            }
            d
        },
        Err(_) => {
            proof {
                assert(false);
            }
            DbSettings {
                settings: Properties::new(),
                database_to_upper: false,
                database_to_lower: false,
                db_close_on_exit: false,
                ignore_catalogs: false,
                mv_store: false,
            }
        },
    }
}

/// Reading no settings at all succeeds.
pub proof fn lemma_defaults_read()
    ensures
        db_settings_result(Map::empty()) is Ok,
{
    reveal_strlit("true");
    reveal_strlit("false");
    reveal_strlit("DATABASE_TO_LOWER");
    reveal_strlit("DATABASE_TO_UPPER");
    reveal_strlit("DB_CLOSE_ON_EXIT");
    reveal_strlit("IGNORE_CATALOGS");
    reveal_strlit("MV_STORE");
    reveal_strlit("1");
    reveal_strlit("t");
    reveal_strlit("y");
    reveal_strlit("yes");
    reveal_strlit("0");
    reveal_strlit("f");
    reveal_strlit("n");
    reveal_strlit("no");
    assert(crate::util::utils::is_true_word("true"@));
    assert(crate::util::utils::is_false_word("false"@));
}


/// Where reading settings succeeds, the settings hold the keys that were given
/// and the names of the default settings, and no other.
pub proof fn lemma_db_settings_keys(m: Map<Seq<char>, Seq<char>>)
    ensures
        db_settings_result(m) matches Ok(v) ==> forall|k: Seq<char>|
            #[trigger] v.settings.contains_key(k) <==> (m.contains_key(k) || is_default_setting(k)),
{
}


/// A boolean written as `true` or `false` reads back as itself, whatever the
/// default.
pub proof fn law_bool_text_reads(b: bool, d: bool, throw_exception: bool)
    ensures
        !parse_bool_fails(bool_text(b), throw_exception),
        parse_bool_value(bool_text(b), d) == b,
{
    reveal_strlit("true");
    reveal_strlit("false");
    reveal_strlit("1");
    reveal_strlit("t");
    reveal_strlit("y");
    reveal_strlit("yes");
    reveal_strlit("0");
    reveal_strlit("f");
    reveal_strlit("n");
    reveal_strlit("no");
    assert(crate::util::utils::is_true_word("true"@));
    assert(crate::util::utils::is_false_word("false"@));
}

/// A boolean setting that is missing reads as its default.
pub proof fn law_missing_bool_reads_default(m: Map<Seq<char>, Seq<char>>, key: Seq<char>, d: bool)
    requires
        !m.contains_key(key),
    ensures
        bool_reads(m, key, d),
        bool_value(m, key, d) == d,
{
    law_bool_text_reads(d, d, true);
}

/// A number setting that is missing reads as its default, where the default is
/// positive (it is stored in decimal and read back as `integer_decode` reads).
pub proof fn law_missing_int_reads_default(m: Map<Seq<char>, Seq<char>>, key: Seq<char>, d: i32)
    requires
        !m.contains_key(key),
        d > 0,
    ensures
        integer_decodes(text_or(m, key, decimal_of(d as int))),
        decoded_integer(text_or(m, key, decimal_of(d as int))) == Some(d as int),
{
    law_decode_decimal(d);
}

/// Once a setting has been read with a default, it reads with any default as
/// it did the first time: the default is remembered.
pub proof fn law_default_remembered(m: Map<Seq<char>, Seq<char>>, key: Seq<char>, d: Seq<char>, d2: Seq<char>)
    ensures
        text_or(with_default(m, key, d), key, d2) == text_or(m, key, d),
{
}

} // verus!
