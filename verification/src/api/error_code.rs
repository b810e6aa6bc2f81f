use vstd::prelude::*;
use crate::util::chars::to_owned_string;
use crate::util::numfmt::{decimal_of, i32_to_decimal};

verus! {

/// Error code: No row at the current position of a result set.
pub const NO_DATA_AVAILABLE: i32 = 2000;

/// Error code: A function was called with the wrong number of parameters.
pub const INVALID_PARAMETER_COUNT_2: i32 = 7001;

/// Error code: A database lock could not be created.
pub const ERROR_OPENING_DATABASE_1: i32 = 8000;

/// Error code: The number of columns does not match.
pub const COLUMN_COUNT_DOES_NOT_MATCH: i32 = 21002;

/// Error code: A value could not be converted to the requested type.
pub const DATA_CONVERSION_ERROR_1: i32 = 22018;

/// Error code: A missing element of an array was read.
pub const ARRAY_ELEMENT_ERROR_2: i32 = 22034;

/// Error code: A table or view with this name exists already.
pub const TABLE_OR_VIEW_ALREADY_EXISTS_1: i32 = 42101;

/// Error code: A table or view does not exist.
pub const TABLE_OR_VIEW_NOT_FOUND_1: i32 = 42102;

/// Error code: A table or view does not exist, but similar names do.
pub const TABLE_OR_VIEW_NOT_FOUND_WITH_CANDIDATES_2: i32 = 42103;

/// Error code: A table or view does not exist and the database is empty.
pub const TABLE_OR_VIEW_NOT_FOUND_DATABASE_EMPTY_1: i32 = 42104;

/// Error code: An index with this name exists already.
pub const INDEX_ALREADY_EXISTS_1: i32 = 42111;

/// Error code: An index does not exist.
pub const INDEX_NOT_FOUND_1: i32 = 42112;

/// Error code: A column name was used twice.
pub const DUPLICATE_COLUMN_NAME_1: i32 = 42121;

/// Error code: A column does not exist.
pub const COLUMN_NOT_FOUND_1: i32 = 42122;

/// Error code: Expressions that should be identical differ.
pub const IDENTICAL_EXPRESSIONS_SHOULD_BE_USED: i32 = 42131;

/// Error code: Something unexpected happened.
pub const GENERAL_ERROR_1: i32 = 50000;

/// Error code: A data type is unknown or not supported.
pub const UNKNOWN_DATA_TYPE_1: i32 = 50004;

/// Error code: A feature is not supported.
pub const FEATURE_NOT_SUPPORTED_1: i32 = 50100;

/// Error code: A lock was held longer than the lock timeout.
pub const LOCK_TIMEOUT_1: i32 = 50200;

/// Error code: A hexadecimal text has an odd number of digits.
pub const HEX_STRING_ODD_1: i32 = 90003;

/// Error code: A hexadecimal text holds a character that is no hexadecimal digit.
pub const HEX_STRING_WRONG_1: i32 = 90004;

/// Error code: A value is not valid for the operation.
pub const INVALID_VALUE_2: i32 = 90008;

/// Error code: A database URL names a path relative to the working directory.
pub const URL_RELATIVE_TO_CWD: i32 = 90011;

/// Error code: The database is in use by another process.
pub const DATABASE_ALREADY_OPEN_1: i32 = 90020;

/// Error code: Two settings conflict.
pub const UNSUPPORTED_SETTING_COMBINATION: i32 = 90021;

/// Error code: A file is corrupted.
pub const FILE_CORRUPTED_1: i32 = 90030;

/// Error code: A database URL has an unsupported format.
pub const URL_FORMAT_ERROR_2: i32 = 90046;

/// Error code: A database file has an unexpected version.
pub const FILE_VERSION_ERROR_1: i32 = 90048;

/// Error code: A file locking method is not supported.
pub const UNSUPPORTED_LOCK_METHOD_1: i32 = 90060;

/// Error code: A property was given twice.
pub const DUPLICATE_PROPERTY_1: i32 = 90066;

/// Error code: A compatibility mode is unknown.
pub const UNKNOWN_MODE_1: i32 = 90088;

/// Error code: The database has been closed.
pub const DATABASE_IS_CLOSED: i32 = 90098;

/// Error code: A database URL holds an unsupported setting.
pub const UNSUPPORTED_SETTING_1: i32 = 90113;

/// Error code: A database name is not valid.
pub const INVALID_DATABASE_NAME_1: i32 = 90138;

/// Error code: A database does not exist and IFEXISTS is set.
pub const DATABASE_NOT_FOUND_WITH_IF_EXISTS_1: i32 = 90146;

/// Error code: A remote database does not exist and may not be created.
pub const REMOTE_DATABASE_NOT_FOUND_1: i32 = 90149;

/// The SQL state of an error code: a fixed five character state for the codes
/// that have one, the decimal form of the code otherwise.
pub open spec fn state_of(error_code: i32) -> Seq<char> {
    if error_code == NO_DATA_AVAILABLE {
        "02000"@
    } else if error_code == INVALID_PARAMETER_COUNT_2 {
        "07001"@
    } else if error_code == ERROR_OPENING_DATABASE_1 {
        "08000"@
    } else if error_code == COLUMN_COUNT_DOES_NOT_MATCH {
        "21S02"@
    } else if error_code == ARRAY_ELEMENT_ERROR_2 {
        "2202E"@
    } else if error_code == TABLE_OR_VIEW_ALREADY_EXISTS_1 {
        "42S01"@
    } else if error_code == TABLE_OR_VIEW_NOT_FOUND_1 {
        "42S02"@
    } else if error_code == TABLE_OR_VIEW_NOT_FOUND_WITH_CANDIDATES_2 {
        "42S03"@
    } else if error_code == TABLE_OR_VIEW_NOT_FOUND_DATABASE_EMPTY_1 {
        "42S04"@
    } else if error_code == INDEX_ALREADY_EXISTS_1 {
        "42S11"@
    } else if error_code == INDEX_NOT_FOUND_1 {
        "42S12"@
    } else if error_code == DUPLICATE_COLUMN_NAME_1 {
        "42S21"@
    } else if error_code == COLUMN_NOT_FOUND_1 {
        "42S22"@
    } else if error_code == IDENTICAL_EXPRESSIONS_SHOULD_BE_USED {
        "42S31"@
    } else if error_code == GENERAL_ERROR_1 {
        "HY000"@
    } else if error_code == UNKNOWN_DATA_TYPE_1 {
        "HY004"@
    } else if error_code == FEATURE_NOT_SUPPORTED_1 {
        "HYC00"@
    } else if error_code == LOCK_TIMEOUT_1 {
        "HYT00"@
    } else {
        decimal_of(error_code as int)
    }
}

/// The SQL state of an error code.
pub fn get_state(error_code: i32) -> (s: String)
    ensures
        s@ == state_of(error_code),
{
    if error_code == NO_DATA_AVAILABLE {
        to_owned_string("02000")
    } else if error_code == INVALID_PARAMETER_COUNT_2 {
        to_owned_string("07001")
    } else if error_code == ERROR_OPENING_DATABASE_1 {
        to_owned_string("08000")
    } else if error_code == COLUMN_COUNT_DOES_NOT_MATCH {
        to_owned_string("21S02")
    } else if error_code == ARRAY_ELEMENT_ERROR_2 {
        to_owned_string("2202E")
    } else if error_code == TABLE_OR_VIEW_ALREADY_EXISTS_1 {
        to_owned_string("42S01")
    } else if error_code == TABLE_OR_VIEW_NOT_FOUND_1 {
        to_owned_string("42S02")
    } else if error_code == TABLE_OR_VIEW_NOT_FOUND_WITH_CANDIDATES_2 {
        to_owned_string("42S03")
    } else if error_code == TABLE_OR_VIEW_NOT_FOUND_DATABASE_EMPTY_1 {
        to_owned_string("42S04")
    } else if error_code == INDEX_ALREADY_EXISTS_1 {
        to_owned_string("42S11")
    } else if error_code == INDEX_NOT_FOUND_1 {
        to_owned_string("42S12")
    } else if error_code == DUPLICATE_COLUMN_NAME_1 {
        to_owned_string("42S21")
    } else if error_code == COLUMN_NOT_FOUND_1 {
        to_owned_string("42S22")
    } else if error_code == IDENTICAL_EXPRESSIONS_SHOULD_BE_USED {
        to_owned_string("42S31")
    } else if error_code == GENERAL_ERROR_1 {
        to_owned_string("HY000")
    } else if error_code == UNKNOWN_DATA_TYPE_1 {
        to_owned_string("HY004")
    } else if error_code == FEATURE_NOT_SUPPORTED_1 {
        to_owned_string("HYC00")
    } else if error_code == LOCK_TIMEOUT_1 {
        to_owned_string("HYT00")
    } else {
        i32_to_decimal(error_code)
    }
}

} // verus!
