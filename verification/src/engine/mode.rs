use vstd::prelude::*;
use crate::util::chars::{str_eq, to_owned_string};
use crate::util::string_utils::{to_upper_english, upper_case_of};

verus! {

/// The compatibility modes.
#[derive(Clone, Copy, PartialEq, Eq, Structural)]
pub enum ModeEnum {
    REGULAR,
    STRICT,
    LEGACY,
    DB2,
    Derby,
    MariaDB,
    MSSQLServer,
    HSQLDB,
    MySQL,
    Oracle,
    PostgreSQL,
}

/// The name of a compatibility mode.
pub open spec fn mode_name(m: ModeEnum) -> Seq<char> {
    match m {
        ModeEnum::REGULAR => "REGULAR"@,
        ModeEnum::STRICT => "STRICT"@,
        ModeEnum::LEGACY => "LEGACY"@,
        ModeEnum::DB2 => "DB2"@,
        ModeEnum::Derby => "Derby"@,
        ModeEnum::MariaDB => "MariaDB"@,
        ModeEnum::MSSQLServer => "MSSQLServer"@,
        ModeEnum::HSQLDB => "HSQLDB"@,
        ModeEnum::MySQL => "MySQL"@,
        ModeEnum::Oracle => "Oracle"@,
        ModeEnum::PostgreSQL => "PostgreSQL"@,
    }
}

impl ModeEnum {
    /// The name of the mode.
    pub fn name(&self) -> (s: &'static str)
        ensures
            s@ == mode_name(*self),
    {
        match self {
            ModeEnum::REGULAR => "REGULAR",
            ModeEnum::STRICT => "STRICT",
            ModeEnum::LEGACY => "LEGACY",
            ModeEnum::DB2 => "DB2",
            ModeEnum::Derby => "Derby",
            ModeEnum::MariaDB => "MariaDB",
            ModeEnum::MSSQLServer => "MSSQLServer",
            ModeEnum::HSQLDB => "HSQLDB",
            ModeEnum::MySQL => "MySQL",
            ModeEnum::Oracle => "Oracle",
            ModeEnum::PostgreSQL => "PostgreSQL",
        }
    }
}

/// The settings of a compatibility mode.
pub struct Mode {
    pub allow_empty_in_predicate: bool,
    pub date_time_value_within_transaction: bool,
    pub top_in_select: bool,
    pub limit: bool,
    pub minus_is_except: bool,
    pub identity_data_type: bool,
    pub serial_data_types: bool,
    pub auto_increment_clause: bool,
    pub name: String,
    pub mode_enum: ModeEnum,
}

/// Whether `m` is the mode `e` with all flags off.
pub open spec fn is_plain_mode(m: Mode, e: ModeEnum) -> bool {
    &&& m.name@ == mode_name(e)
    &&& m.mode_enum == e
    &&& !m.allow_empty_in_predicate
    &&& !m.date_time_value_within_transaction
    &&& !m.top_in_select
    &&& !m.limit
    &&& !m.minus_is_except
    &&& !m.identity_data_type
    &&& !m.serial_data_types
    &&& !m.auto_increment_clause
}

/// Whether `m` is the regular mode as registered: named `REGULAR`, with the
/// flags of the regular mode on.
pub open spec fn is_regular_mode(m: Mode) -> bool {
    &&& m.name@ == mode_name(ModeEnum::REGULAR)
    &&& m.mode_enum == ModeEnum::REGULAR
    &&& m.allow_empty_in_predicate
    &&& m.date_time_value_within_transaction
    &&& m.top_in_select
    &&& m.limit
    &&& m.minus_is_except
    &&& m.identity_data_type
    &&& m.serial_data_types
    &&& m.auto_increment_clause
}

/// Whether `get_instance` finds a mode for `name`: only the regular mode is
/// registered, under the upper case form of its name, and `name` is looked up
/// by its upper case form.
pub open spec fn mode_found(name: Seq<char>) -> bool {
    upper_case_of(name) == upper_case_of(mode_name(ModeEnum::REGULAR))
}

impl Mode {
    /// The mode `mode_enum` with all flags off.
    pub fn new(mode_enum: ModeEnum) -> (m: Mode)
        ensures
            is_plain_mode(m, mode_enum),
    {
        Mode {
            allow_empty_in_predicate: false,
            date_time_value_within_transaction: false,
            top_in_select: false,
            limit: false,
            minus_is_except: false,
            identity_data_type: false,
            serial_data_types: false,
            auto_increment_clause: false,
            name: to_owned_string(mode_enum.name()),
            mode_enum,
        }
    }

    fn regular() -> (m: Mode)
        ensures
            is_regular_mode(m),
    {
        let mut mode = Mode::new(ModeEnum::REGULAR);
        mode.allow_empty_in_predicate = true;
        mode.date_time_value_within_transaction = true;
        mode.top_in_select = true;
        mode.limit = true;
        mode.minus_is_except = true;
        mode.identity_data_type = true;
        mode.serial_data_types = true;
        mode.auto_increment_clause = true;
        mode
    }

    /// The regular mode.
    pub fn get_regular() -> (m: Option<Mode>)
        ensures
            m matches Some(x) && is_regular_mode(x),
    {
        Self::get_instance(ModeEnum::REGULAR.name())
    }

    /// The registered mode named `name` in any case, if there is one.
    pub fn get_instance(name: &str) -> (m: Option<Mode>)
        ensures
            mode_found(name@) ==> (m matches Some(x) && is_regular_mode(x)),
            !mode_found(name@) ==> m is None,
    {
        let key = to_upper_english(name);
        let regular_key = to_upper_english(ModeEnum::REGULAR.name());
        if str_eq(key.as_str(), regular_key.as_str()) {
            Some(Self::regular())
        } else {
            None
        }
    }
}

/// How rows with NULL values in indexed columns are handled in unique indexes.
pub enum UniqueIndexNullsHandling {
    /// Rows with identical values and at least one NULL are allowed.
    AllowDuplicatesWithAnyNull,
    /// Rows with identical values and only NULLs are allowed.
    AllowDuplicatesWithAllNulls,
    /// Rows with identical values are not allowed.
    ForbidAnyDuplicates,
}

/// How column names of expressions are generated.
pub enum ExpressionNames {
    /// The optimized SQL of the expression.
    OptimizedSql,
    /// The original SQL of the expression.
    OriginalSql,
    /// An empty name.
    EMPTY,
    /// The ordinal number of the column.
    NUMBER,
    /// The ordinal number of the column after a C.
    CNumber,
    /// The function name for functions, `?column?` otherwise.
    PostgresqlStyle,
}

/// How column names of expressions in a view are generated.
pub enum ViewExpressionNames {
    /// Specified and generated names as they are.
    AsIs,
    /// An error for names that are not specified.
    EXCEPTION,
    /// Names as they are, too long generated names replaced.
    MysqlStyle,
}

/// When CHAR values are padded with spaces on the right.
pub enum CharPadding {
    /// Always.
    ALWAYS,
    /// Trimmed, but padded in result sets.
    InResultSets,
    /// Never; spaces on the right are trimmed.
    NEVER,
}

} // verus!
