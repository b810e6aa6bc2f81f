use vstd::prelude::*;

verus! {

/// The empty string.
pub const EMPTY_STR: &'static str = "";

/// A dot.
pub const DOT: &'static str = ".";

/// The separator of settings in a database URL.
pub const SEMI_COLUMN: char = ';';

/// The separator of a key and its value.
pub const EQUAL: char = '=';

/// The separator of a key and its value in a serialized map.
pub const COLON_CHAR: char = ':';

/// The separator of entries in a serialized map.
pub const COMMA_CHAR: char = ',';

/// The minus sign.
pub const NEGATIVE: char = '-';

/// The plus sign.
pub const POSITIVE: char = '+';

/// The number of bytes in a gibibyte.
pub const GB: i32 = 1024 * 1024 * 1024;

} // verus!
