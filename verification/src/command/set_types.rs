use vstd::prelude::*;
use crate::util::chars::str_eq;

verus! {

/// The type of a SET IGNORECASE statement.
pub const IGNORECASE: i32 = 0;

/// The type of a SET MAX_LOG_SIZE statement.
pub const MAX_LOG_SIZE: i32 = 1;

/// The type of a SET MODE statement.
pub const MODE: i32 = 2;

/// The type of a SET READONLY statement.
pub const READONLY: i32 = 3;

/// The type of a SET LOCK_TIMEOUT statement.
pub const LOCK_TIMEOUT: i32 = 4;

/// The type of a SET DEFAULT_LOCK_TIMEOUT statement.
pub const DEFAULT_LOCK_TIMEOUT: i32 = 5;

/// The type of a SET DEFAULT_TABLE_TYPE statement.
pub const DEFAULT_TABLE_TYPE: i32 = 6;

/// The type of a SET CACHE_SIZE statement.
pub const CACHE_SIZE: i32 = 7;

/// The type of a SET TRACE_LEVEL_SYSTEM_OUT statement.
pub const TRACE_LEVEL_SYSTEM_OUT: i32 = 8;

/// The type of a SET TRACE_LEVEL_FILE statement.
pub const TRACE_LEVEL_FILE: i32 = 9;

/// The type of a SET TRACE_MAX_FILE_SIZE statement.
pub const TRACE_MAX_FILE_SIZE: i32 = 10;

/// The type of a SET COLLATION statement.
pub const COLLATION: i32 = 11;

/// The type of a SET CLUSTER statement.
pub const CLUSTER: i32 = 12;

/// The type of a SET WRITE_DELAY statement.
pub const WRITE_DELAY: i32 = 13;

/// The type of a SET DATABASE_EVENT_LISTENER statement.
pub const DATABASE_EVENT_LISTENER: i32 = 14;

/// The type of a SET MAX_MEMORY_ROWS statement.
pub const MAX_MEMORY_ROWS: i32 = 15;

/// The type of a SET LOCK_MODE statement.
pub const LOCK_MODE: i32 = 16;

/// The type of a SET DB_CLOSE_DELAY statement.
pub const DB_CLOSE_DELAY: i32 = 17;

/// The type of a SET THROTTLE statement.
pub const THROTTLE: i32 = 18;

/// The type of a SET MAX_MEMORY_UNDO statement.
pub const MAX_MEMORY_UNDO: i32 = 19;

/// The type of a SET MAX_LENGTH_INPLACE_LOB statement.
pub const MAX_LENGTH_INPLACE_LOB: i32 = 20;

/// The type of a SET ALLOW_LITERALS statement.
pub const ALLOW_LITERALS: i32 = 21;

/// The type of a SET SCHEMA statement.
pub const SCHEMA: i32 = 22;

/// The type of a SET OPTIMIZE_REUSE_RESULTS statement.
pub const OPTIMIZE_REUSE_RESULTS: i32 = 23;

/// The type of a SET SCHEMA_SEARCH_PATH statement.
pub const SCHEMA_SEARCH_PATH: i32 = 24;

/// The type of a SET REFERENTIAL_INTEGRITY statement.
pub const REFERENTIAL_INTEGRITY: i32 = 25;

/// The type of a SET MAX_OPERATION_MEMORY statement.
pub const MAX_OPERATION_MEMORY: i32 = 26;

/// The type of a SET EXCLUSIVE statement.
pub const EXCLUSIVE: i32 = 27;

/// The type of a SET CREATE_BUILD statement.
pub const CREATE_BUILD: i32 = 28;

/// The type of a SET @VARIABLE statement.
pub const VARIABLE: i32 = 29;

/// The type of a SET QUERY_TIMEOUT statement.
pub const QUERY_TIMEOUT: i32 = 30;

/// The type of a SET REDO_LOG_BINARY statement.
pub const REDO_LOG_BINARY: i32 = 31;

/// The type of a SET JAVA_OBJECT_SERIALIZER statement.
pub const JAVA_OBJECT_SERIALIZER: i32 = 32;

/// The type of a SET RETENTION_TIME statement.
pub const RETENTION_TIME: i32 = 33;

/// The type of a SET QUERY_STATISTICS statement.
pub const QUERY_STATISTICS: i32 = 34;

/// The type of a SET QUERY_STATISTICS_MAX_ENTRIES statement.
pub const QUERY_STATISTICS_MAX_ENTRIES: i32 = 35;

/// The type of a SET LAZY_QUERY_EXECUTION statement.
pub const LAZY_QUERY_EXECUTION: i32 = 36;

/// The type of a SET BUILTIN_ALIAS_OVERRIDE statement.
pub const BUILTIN_ALIAS_OVERRIDE: i32 = 37;

/// The type of a SET AUTHENTICATOR statement.
pub const AUTHENTICATOR: i32 = 38;

/// The type of a SET IGNORE_CATALOGS statement.
pub const IGNORE_CATALOGS: i32 = 39;

/// The type of a SET CATALOG statement.
pub const CATALOG: i32 = 40;

/// The type of a SET NON_KEYWORDS statement.
pub const NON_KEYWORDS: i32 = 41;

/// The type of a SET TIME ZONE statement.
pub const TIME_ZONE: i32 = 42;

/// The type of a SET VARIABLE_BINARY statement.
pub const VARIABLE_BINARY: i32 = 43;

/// The type of a SET DEFAULT_NULL_ORDERING statement.
pub const DEFAULT_NULL_ORDERING: i32 = 44;

/// The type of a SET TRUNCATE_LARGE_LENGTH statement.
pub const TRUNCATE_LARGE_LENGTH: i32 = 45;

/// The number of types of SET statements.
pub const COUNT: i32 = 46;

/// The names of the types of SET statements, indexed by type.
pub open spec fn type_names() -> Seq<Seq<char>> {
    seq![
        "IGNORECASE"@,
        "MAX_LOG_SIZE"@,
        "MODE"@,
        "READONLY"@,
        "LOCK_TIMEOUT"@,
        "DEFAULT_LOCK_TIMEOUT"@,
        "DEFAULT_TABLE_TYPE"@,
        "CACHE_SIZE"@,
        "TRACE_LEVEL_SYSTEM_OUT"@,
        "TRACE_LEVEL_FILE"@,
        "TRACE_MAX_FILE_SIZE"@,
        "COLLATION"@,
        "CLUSTER"@,
        "WRITE_DELAY"@,
        "DATABASE_EVENT_LISTENER"@,
        "MAX_MEMORY_ROWS"@,
        "LOCK_MODE"@,
        "DB_CLOSE_DELAY"@,
        "THROTTLE"@,
        "MAX_MEMORY_UNDO"@,
        "MAX_LENGTH_INPLACE_LOB"@,
        "ALLOW_LITERALS"@,
        "SCHEMA"@,
        "OPTIMIZE_REUSE_RESULTS"@,
        "SCHEMA_SEARCH_PATH"@,
        "REFERENTIAL_INTEGRITY"@,
        "MAX_OPERATION_MEMORY"@,
        "EXCLUSIVE"@,
        "CREATE_BUILD"@,
        "@"@,
        "QUERY_TIMEOUT"@,
        "REDO_LOG_BINARY"@,
        "JAVA_OBJECT_SERIALIZER"@,
        "RETENTION_TIME"@,
        "QUERY_STATISTICS"@,
        "QUERY_STATISTICS_MAX_ENTRIES"@,
        "LAZY_QUERY_EXECUTION"@,
        "BUILTIN_ALIAS_OVERRIDE"@,
        "AUTHENTICATOR"@,
        "IGNORE_CATALOGS"@,
        "CATALOG"@,
        "NON_KEYWORDS"@,
        "TIME ZONE"@,
        "VARIABLE_BINARY"@,
        "DEFAULT_NULL_ORDERING"@,
        "TRUNCATE_LARGE_LENGTH"@,
    ]
}

/// The names of the types of SET statements, indexed by type.
pub fn get_types() -> (v: Vec<&'static str>)
    ensures
        v.deep_view() == type_names(),
{
    let mut v: Vec<&'static str> = Vec::new();
    v.push("IGNORECASE");
    v.push("MAX_LOG_SIZE");
    v.push("MODE");
    v.push("READONLY");
    v.push("LOCK_TIMEOUT");
    v.push("DEFAULT_LOCK_TIMEOUT");
    v.push("DEFAULT_TABLE_TYPE");
    v.push("CACHE_SIZE");
    v.push("TRACE_LEVEL_SYSTEM_OUT");
    v.push("TRACE_LEVEL_FILE");
    v.push("TRACE_MAX_FILE_SIZE");
    v.push("COLLATION");
    v.push("CLUSTER");
    v.push("WRITE_DELAY");
    v.push("DATABASE_EVENT_LISTENER");
    v.push("MAX_MEMORY_ROWS");
    v.push("LOCK_MODE");
    v.push("DB_CLOSE_DELAY");
    v.push("THROTTLE");
    v.push("MAX_MEMORY_UNDO");
    v.push("MAX_LENGTH_INPLACE_LOB");
    v.push("ALLOW_LITERALS");
    v.push("SCHEMA");
    v.push("OPTIMIZE_REUSE_RESULTS");
    v.push("SCHEMA_SEARCH_PATH");
    v.push("REFERENTIAL_INTEGRITY");
    v.push("MAX_OPERATION_MEMORY");
    v.push("EXCLUSIVE");
    v.push("CREATE_BUILD");
    v.push("@");
    v.push("QUERY_TIMEOUT");
    v.push("REDO_LOG_BINARY");
    v.push("JAVA_OBJECT_SERIALIZER");
    v.push("RETENTION_TIME");
    v.push("QUERY_STATISTICS");
    v.push("QUERY_STATISTICS_MAX_ENTRIES");
    v.push("LAZY_QUERY_EXECUTION");
    v.push("BUILTIN_ALIAS_OVERRIDE");
    v.push("AUTHENTICATOR");
    v.push("IGNORE_CATALOGS");
    v.push("CATALOG");
    v.push("NON_KEYWORDS");
    v.push("TIME ZONE");
    v.push("VARIABLE_BINARY");
    v.push("DEFAULT_NULL_ORDERING");
    v.push("TRUNCATE_LARGE_LENGTH");
    proof {
        assert(v.deep_view() =~= type_names());
    }
    v
}

/// The type of the SET statement named `name`; 1 where no type has that name.
pub fn get_type(name: &str) -> (t: usize)
    ensures
        (exists|i: int| 0 <= i < type_names().len() && type_names()[i] == name@) ==> t < type_names().len()
            && type_names()[t as int] == name@ && forall|j: int| 0 <= j < t ==> type_names()[j] != name@,
        !(exists|i: int| 0 <= i < type_names().len() && type_names()[i] == name@) ==> t == 1,
{
    let types = get_types();
    let mut i: usize = 0;
    while i < types.len()
        invariant
            types.deep_view() == type_names(),
            i <= types@.len(),
            forall|j: int| 0 <= j < i ==> type_names()[j] != name@,
        decreases types@.len() - i,
    {
        if str_eq(types[i], name) {
            proof {
                assert(types.deep_view()[i as int] == types@[i as int]@);
            }
            return i;
        }
        proof {
            assert(types.deep_view()[i as int] == types@[i as int]@);
        }
        i = i + 1;
    }
    1
}

/// The name of the SET statement type `index`.
pub fn get_type_name(index: usize) -> (n: &'static str)
    requires
        index < type_names().len(),
    ensures
        n@ == type_names()[index as int],
{
    let types = get_types();
    proof {
        assert(types.deep_view()[index as int] == types@[index as int]@);
    }
    types[index]
}

/// The type of the SET statement named `s`, or -1 for no such name.
pub open spec fn type_index_of(s: Seq<char>) -> int {
    if s == "IGNORECASE"@ {
        0
    } else if s == "MAX_LOG_SIZE"@ {
        1
    } else if s == "MODE"@ {
        2
    } else if s == "READONLY"@ {
        3
    } else if s == "LOCK_TIMEOUT"@ {
        4
    } else if s == "DEFAULT_LOCK_TIMEOUT"@ {
        5
    } else if s == "DEFAULT_TABLE_TYPE"@ {
        6
    } else if s == "CACHE_SIZE"@ {
        7
    } else if s == "TRACE_LEVEL_SYSTEM_OUT"@ {
        8
    } else if s == "TRACE_LEVEL_FILE"@ {
        9
    } else if s == "TRACE_MAX_FILE_SIZE"@ {
        10
    } else if s == "COLLATION"@ {
        11
    } else if s == "CLUSTER"@ {
        12
    } else if s == "WRITE_DELAY"@ {
        13
    } else if s == "DATABASE_EVENT_LISTENER"@ {
        14
    } else if s == "MAX_MEMORY_ROWS"@ {
        15
    } else if s == "LOCK_MODE"@ {
        16
    } else if s == "DB_CLOSE_DELAY"@ {
        17
    } else if s == "THROTTLE"@ {
        18
    } else if s == "MAX_MEMORY_UNDO"@ {
        19
    } else if s == "MAX_LENGTH_INPLACE_LOB"@ {
        20
    } else if s == "ALLOW_LITERALS"@ {
        21
    } else if s == "SCHEMA"@ {
        22
    } else if s == "OPTIMIZE_REUSE_RESULTS"@ {
        23
    } else if s == "SCHEMA_SEARCH_PATH"@ {
        24
    } else if s == "REFERENTIAL_INTEGRITY"@ {
        25
    } else if s == "MAX_OPERATION_MEMORY"@ {
        26
    } else if s == "EXCLUSIVE"@ {
        27
    } else if s == "CREATE_BUILD"@ {
        28
    } else if s == "@"@ {
        29
    } else if s == "QUERY_TIMEOUT"@ {
        30
    } else if s == "REDO_LOG_BINARY"@ {
        31
    } else if s == "JAVA_OBJECT_SERIALIZER"@ {
        32
    } else if s == "RETENTION_TIME"@ {
        33
    } else if s == "QUERY_STATISTICS"@ {
        34
    } else if s == "QUERY_STATISTICS_MAX_ENTRIES"@ {
        35
    } else if s == "LAZY_QUERY_EXECUTION"@ {
        36
    } else if s == "BUILTIN_ALIAS_OVERRIDE"@ {
        37
    } else if s == "AUTHENTICATOR"@ {
        38
    } else if s == "IGNORE_CATALOGS"@ {
        39
    } else if s == "CATALOG"@ {
        40
    } else if s == "NON_KEYWORDS"@ {
        41
    } else if s == "TIME ZONE"@ {
        42
    } else if s == "VARIABLE_BINARY"@ {
        43
    } else if s == "DEFAULT_NULL_ORDERING"@ {
        44
    } else if s == "TRUNCATE_LARGE_LENGTH"@ {
        45
    } else {
        -1
    }
}

/// The name of type `k` names type `k`.
#[verifier::rlimit(100)]
#[verifier::spinoff_prover]
proof fn lemma_type_index(k: int)
    requires
        0 <= k < type_names().len(),
    ensures
        type_index_of(type_names()[k]) == k,
{
    reveal_strlit("IGNORECASE");
    reveal_strlit("MAX_LOG_SIZE");
    reveal_strlit("MODE");
    reveal_strlit("READONLY");
    reveal_strlit("LOCK_TIMEOUT");
    reveal_strlit("DEFAULT_LOCK_TIMEOUT");
    reveal_strlit("DEFAULT_TABLE_TYPE");
    reveal_strlit("CACHE_SIZE");
    reveal_strlit("TRACE_LEVEL_SYSTEM_OUT");
    reveal_strlit("TRACE_LEVEL_FILE");
    reveal_strlit("TRACE_MAX_FILE_SIZE");
    reveal_strlit("COLLATION");
    reveal_strlit("CLUSTER");
    reveal_strlit("WRITE_DELAY");
    reveal_strlit("DATABASE_EVENT_LISTENER");
    reveal_strlit("MAX_MEMORY_ROWS");
    reveal_strlit("LOCK_MODE");
    reveal_strlit("DB_CLOSE_DELAY");
    reveal_strlit("THROTTLE");
    reveal_strlit("MAX_MEMORY_UNDO");
    reveal_strlit("MAX_LENGTH_INPLACE_LOB");
    reveal_strlit("ALLOW_LITERALS");
    reveal_strlit("SCHEMA");
    reveal_strlit("OPTIMIZE_REUSE_RESULTS");
    reveal_strlit("SCHEMA_SEARCH_PATH");
    reveal_strlit("REFERENTIAL_INTEGRITY");
    reveal_strlit("MAX_OPERATION_MEMORY");
    reveal_strlit("EXCLUSIVE");
    reveal_strlit("CREATE_BUILD");
    reveal_strlit("@");
    reveal_strlit("QUERY_TIMEOUT");
    reveal_strlit("REDO_LOG_BINARY");
    reveal_strlit("JAVA_OBJECT_SERIALIZER");
    reveal_strlit("RETENTION_TIME");
    reveal_strlit("QUERY_STATISTICS");
    reveal_strlit("QUERY_STATISTICS_MAX_ENTRIES");
    reveal_strlit("LAZY_QUERY_EXECUTION");
    reveal_strlit("BUILTIN_ALIAS_OVERRIDE");
    reveal_strlit("AUTHENTICATOR");
    reveal_strlit("IGNORE_CATALOGS");
    reveal_strlit("CATALOG");
    reveal_strlit("NON_KEYWORDS");
    reveal_strlit("TIME ZONE");
    reveal_strlit("VARIABLE_BINARY");
    reveal_strlit("DEFAULT_NULL_ORDERING");
    reveal_strlit("TRUNCATE_LARGE_LENGTH");
    assert("IGNORECASE"@.len() == 10);
    assert("MAX_LOG_SIZE"@.len() == 12);
    assert("MODE"@.len() == 4);
    assert("READONLY"@.len() == 8);
    assert("LOCK_TIMEOUT"@.len() == 12);
    assert("DEFAULT_LOCK_TIMEOUT"@.len() == 20);
    assert("DEFAULT_TABLE_TYPE"@.len() == 18);
    assert("CACHE_SIZE"@.len() == 10);
    assert("TRACE_LEVEL_SYSTEM_OUT"@.len() == 22);
    assert("TRACE_LEVEL_FILE"@.len() == 16);
    assert("TRACE_MAX_FILE_SIZE"@.len() == 19);
    assert("COLLATION"@.len() == 9);
    assert("CLUSTER"@.len() == 7);
    assert("WRITE_DELAY"@.len() == 11);
    assert("DATABASE_EVENT_LISTENER"@.len() == 23);
    assert("MAX_MEMORY_ROWS"@.len() == 15);
    assert("LOCK_MODE"@.len() == 9);
    assert("DB_CLOSE_DELAY"@.len() == 14);
    assert("THROTTLE"@.len() == 8);
    assert("MAX_MEMORY_UNDO"@.len() == 15);
    assert("MAX_LENGTH_INPLACE_LOB"@.len() == 22);
    assert("ALLOW_LITERALS"@.len() == 14);
    assert("SCHEMA"@.len() == 6);
    assert("OPTIMIZE_REUSE_RESULTS"@.len() == 22);
    assert("SCHEMA_SEARCH_PATH"@.len() == 18);
    assert("REFERENTIAL_INTEGRITY"@.len() == 21);
    assert("MAX_OPERATION_MEMORY"@.len() == 20);
    assert("EXCLUSIVE"@.len() == 9);
    assert("CREATE_BUILD"@.len() == 12);
    assert("@"@.len() == 1);
    assert("QUERY_TIMEOUT"@.len() == 13);
    assert("REDO_LOG_BINARY"@.len() == 15);
    assert("JAVA_OBJECT_SERIALIZER"@.len() == 22);
    assert("RETENTION_TIME"@.len() == 14);
    assert("QUERY_STATISTICS"@.len() == 16);
    assert("QUERY_STATISTICS_MAX_ENTRIES"@.len() == 28);
    assert("LAZY_QUERY_EXECUTION"@.len() == 20);
    assert("BUILTIN_ALIAS_OVERRIDE"@.len() == 22);
    assert("AUTHENTICATOR"@.len() == 13);
    assert("IGNORE_CATALOGS"@.len() == 15);
    assert("CATALOG"@.len() == 7);
    assert("NON_KEYWORDS"@.len() == 12);
    assert("TIME ZONE"@.len() == 9);
    assert("VARIABLE_BINARY"@.len() == 15);
    assert("DEFAULT_NULL_ORDERING"@.len() == 21);
    assert("TRUNCATE_LARGE_LENGTH"@.len() == 21);
    if k == 0 {
        assert(type_names()[0] == "IGNORECASE"@);
    } else if k == 1 {
        assert(type_names()[1] == "MAX_LOG_SIZE"@);
    } else if k == 2 {
        assert(type_names()[2] == "MODE"@);
    } else if k == 3 {
        assert(type_names()[3] == "READONLY"@);
    } else if k == 4 {
        assert(type_names()[4] == "LOCK_TIMEOUT"@);
        assert("LOCK_TIMEOUT"@[0] != "MAX_LOG_SIZE"@[0]);
        assert("LOCK_TIMEOUT"@ != "MAX_LOG_SIZE"@);
    } else if k == 5 {
        assert(type_names()[5] == "DEFAULT_LOCK_TIMEOUT"@);
    } else if k == 6 {
        assert(type_names()[6] == "DEFAULT_TABLE_TYPE"@);
    } else if k == 7 {
        assert(type_names()[7] == "CACHE_SIZE"@);
        assert("CACHE_SIZE"@[0] != "IGNORECASE"@[0]);
        assert("CACHE_SIZE"@ != "IGNORECASE"@);
    } else if k == 8 {
        assert(type_names()[8] == "TRACE_LEVEL_SYSTEM_OUT"@);
    } else if k == 9 {
        assert(type_names()[9] == "TRACE_LEVEL_FILE"@);
    } else if k == 10 {
        assert(type_names()[10] == "TRACE_MAX_FILE_SIZE"@);
    } else if k == 11 {
        assert(type_names()[11] == "COLLATION"@);
    } else if k == 12 {
        assert(type_names()[12] == "CLUSTER"@);
    } else if k == 13 {
        assert(type_names()[13] == "WRITE_DELAY"@);
    } else if k == 14 {
        assert(type_names()[14] == "DATABASE_EVENT_LISTENER"@);
    } else if k == 15 {
        assert(type_names()[15] == "MAX_MEMORY_ROWS"@);
    } else if k == 16 {
        assert(type_names()[16] == "LOCK_MODE"@);
        assert("LOCK_MODE"@[0] != "COLLATION"@[0]);
        assert("LOCK_MODE"@ != "COLLATION"@);
    } else if k == 17 {
        assert(type_names()[17] == "DB_CLOSE_DELAY"@);
    } else if k == 18 {
        assert(type_names()[18] == "THROTTLE"@);
        assert("THROTTLE"@[0] != "READONLY"@[0]);
        assert("THROTTLE"@ != "READONLY"@);
    } else if k == 19 {
        assert(type_names()[19] == "MAX_MEMORY_UNDO"@);
        assert("MAX_MEMORY_UNDO"@[11] != "MAX_MEMORY_ROWS"@[11]);
        assert("MAX_MEMORY_UNDO"@ != "MAX_MEMORY_ROWS"@);
    } else if k == 20 {
        assert(type_names()[20] == "MAX_LENGTH_INPLACE_LOB"@);
        assert("MAX_LENGTH_INPLACE_LOB"@[0] != "TRACE_LEVEL_SYSTEM_OUT"@[0]);
        assert("MAX_LENGTH_INPLACE_LOB"@ != "TRACE_LEVEL_SYSTEM_OUT"@);
    } else if k == 21 {
        assert(type_names()[21] == "ALLOW_LITERALS"@);
        assert("ALLOW_LITERALS"@[0] != "DB_CLOSE_DELAY"@[0]);
        assert("ALLOW_LITERALS"@ != "DB_CLOSE_DELAY"@);
    } else if k == 22 {
        assert(type_names()[22] == "SCHEMA"@);
    } else if k == 23 {
        assert(type_names()[23] == "OPTIMIZE_REUSE_RESULTS"@);
        assert("OPTIMIZE_REUSE_RESULTS"@[0] != "TRACE_LEVEL_SYSTEM_OUT"@[0]);
        assert("OPTIMIZE_REUSE_RESULTS"@ != "TRACE_LEVEL_SYSTEM_OUT"@);
        assert("OPTIMIZE_REUSE_RESULTS"@[0] != "MAX_LENGTH_INPLACE_LOB"@[0]);
        assert("OPTIMIZE_REUSE_RESULTS"@ != "MAX_LENGTH_INPLACE_LOB"@);
    } else if k == 24 {
        assert(type_names()[24] == "SCHEMA_SEARCH_PATH"@);
        assert("SCHEMA_SEARCH_PATH"@[0] != "DEFAULT_TABLE_TYPE"@[0]);
        assert("SCHEMA_SEARCH_PATH"@ != "DEFAULT_TABLE_TYPE"@);
    } else if k == 25 {
        assert(type_names()[25] == "REFERENTIAL_INTEGRITY"@);
    } else if k == 26 {
        assert(type_names()[26] == "MAX_OPERATION_MEMORY"@);
        assert("MAX_OPERATION_MEMORY"@[0] != "DEFAULT_LOCK_TIMEOUT"@[0]);
        assert("MAX_OPERATION_MEMORY"@ != "DEFAULT_LOCK_TIMEOUT"@);
    } else if k == 27 {
        assert(type_names()[27] == "EXCLUSIVE"@);
        assert("EXCLUSIVE"@[0] != "COLLATION"@[0]);
        assert("EXCLUSIVE"@ != "COLLATION"@);
        assert("EXCLUSIVE"@[0] != "LOCK_MODE"@[0]);
        assert("EXCLUSIVE"@ != "LOCK_MODE"@);
    } else if k == 28 {
        assert(type_names()[28] == "CREATE_BUILD"@);
        assert("CREATE_BUILD"@[0] != "MAX_LOG_SIZE"@[0]);
        assert("CREATE_BUILD"@ != "MAX_LOG_SIZE"@);
        assert("CREATE_BUILD"@[0] != "LOCK_TIMEOUT"@[0]);
        assert("CREATE_BUILD"@ != "LOCK_TIMEOUT"@);
    } else if k == 29 {
        assert(type_names()[29] == "@"@);
    } else if k == 30 {
        assert(type_names()[30] == "QUERY_TIMEOUT"@);
    } else if k == 31 {
        assert(type_names()[31] == "REDO_LOG_BINARY"@);
        assert("REDO_LOG_BINARY"@[0] != "MAX_MEMORY_ROWS"@[0]);
        assert("REDO_LOG_BINARY"@ != "MAX_MEMORY_ROWS"@);
        assert("REDO_LOG_BINARY"@[0] != "MAX_MEMORY_UNDO"@[0]);
        assert("REDO_LOG_BINARY"@ != "MAX_MEMORY_UNDO"@);
    } else if k == 32 {
        assert(type_names()[32] == "JAVA_OBJECT_SERIALIZER"@);
        assert("JAVA_OBJECT_SERIALIZER"@[0] != "TRACE_LEVEL_SYSTEM_OUT"@[0]);
        assert("JAVA_OBJECT_SERIALIZER"@ != "TRACE_LEVEL_SYSTEM_OUT"@);
        assert("JAVA_OBJECT_SERIALIZER"@[0] != "MAX_LENGTH_INPLACE_LOB"@[0]);
        assert("JAVA_OBJECT_SERIALIZER"@ != "MAX_LENGTH_INPLACE_LOB"@);
        assert("JAVA_OBJECT_SERIALIZER"@[0] != "OPTIMIZE_REUSE_RESULTS"@[0]);
        assert("JAVA_OBJECT_SERIALIZER"@ != "OPTIMIZE_REUSE_RESULTS"@);
    } else if k == 33 {
        assert(type_names()[33] == "RETENTION_TIME"@);
        assert("RETENTION_TIME"@[0] != "DB_CLOSE_DELAY"@[0]);
        assert("RETENTION_TIME"@ != "DB_CLOSE_DELAY"@);
        assert("RETENTION_TIME"@[0] != "ALLOW_LITERALS"@[0]);
        assert("RETENTION_TIME"@ != "ALLOW_LITERALS"@);
    } else if k == 34 {
        assert(type_names()[34] == "QUERY_STATISTICS"@);
        assert("QUERY_STATISTICS"@[0] != "TRACE_LEVEL_FILE"@[0]);
        assert("QUERY_STATISTICS"@ != "TRACE_LEVEL_FILE"@);
    } else if k == 35 {
        assert(type_names()[35] == "QUERY_STATISTICS_MAX_ENTRIES"@);
    } else if k == 36 {
        assert(type_names()[36] == "LAZY_QUERY_EXECUTION"@);
        assert("LAZY_QUERY_EXECUTION"@[0] != "DEFAULT_LOCK_TIMEOUT"@[0]);
        assert("LAZY_QUERY_EXECUTION"@ != "DEFAULT_LOCK_TIMEOUT"@);
        assert("LAZY_QUERY_EXECUTION"@[0] != "MAX_OPERATION_MEMORY"@[0]);
        assert("LAZY_QUERY_EXECUTION"@ != "MAX_OPERATION_MEMORY"@);
    } else if k == 37 {
        assert(type_names()[37] == "BUILTIN_ALIAS_OVERRIDE"@);
        assert("BUILTIN_ALIAS_OVERRIDE"@[0] != "TRACE_LEVEL_SYSTEM_OUT"@[0]);
        assert("BUILTIN_ALIAS_OVERRIDE"@ != "TRACE_LEVEL_SYSTEM_OUT"@);
        assert("BUILTIN_ALIAS_OVERRIDE"@[0] != "MAX_LENGTH_INPLACE_LOB"@[0]);
        assert("BUILTIN_ALIAS_OVERRIDE"@ != "MAX_LENGTH_INPLACE_LOB"@);
        assert("BUILTIN_ALIAS_OVERRIDE"@[0] != "OPTIMIZE_REUSE_RESULTS"@[0]);
        assert("BUILTIN_ALIAS_OVERRIDE"@ != "OPTIMIZE_REUSE_RESULTS"@);
        assert("BUILTIN_ALIAS_OVERRIDE"@[0] != "JAVA_OBJECT_SERIALIZER"@[0]);
        assert("BUILTIN_ALIAS_OVERRIDE"@ != "JAVA_OBJECT_SERIALIZER"@);
    } else if k == 38 {
        assert(type_names()[38] == "AUTHENTICATOR"@);
        assert("AUTHENTICATOR"@[0] != "QUERY_TIMEOUT"@[0]);
        assert("AUTHENTICATOR"@ != "QUERY_TIMEOUT"@);
    } else if k == 39 {
        assert(type_names()[39] == "IGNORE_CATALOGS"@);
        assert("IGNORE_CATALOGS"@[0] != "MAX_MEMORY_ROWS"@[0]);
        assert("IGNORE_CATALOGS"@ != "MAX_MEMORY_ROWS"@);
        assert("IGNORE_CATALOGS"@[0] != "MAX_MEMORY_UNDO"@[0]);
        assert("IGNORE_CATALOGS"@ != "MAX_MEMORY_UNDO"@);
        assert("IGNORE_CATALOGS"@[0] != "REDO_LOG_BINARY"@[0]);
        assert("IGNORE_CATALOGS"@ != "REDO_LOG_BINARY"@);
    } else if k == 40 {
        assert(type_names()[40] == "CATALOG"@);
        assert("CATALOG"@[1] != "CLUSTER"@[1]);
        assert("CATALOG"@ != "CLUSTER"@);
    } else if k == 41 {
        assert(type_names()[41] == "NON_KEYWORDS"@);
        assert("NON_KEYWORDS"@[0] != "MAX_LOG_SIZE"@[0]);
        assert("NON_KEYWORDS"@ != "MAX_LOG_SIZE"@);
        assert("NON_KEYWORDS"@[0] != "LOCK_TIMEOUT"@[0]);
        assert("NON_KEYWORDS"@ != "LOCK_TIMEOUT"@);
        assert("NON_KEYWORDS"@[0] != "CREATE_BUILD"@[0]);
        assert("NON_KEYWORDS"@ != "CREATE_BUILD"@);
    } else if k == 42 {
        assert(type_names()[42] == "TIME ZONE"@);
        assert("TIME ZONE"@[0] != "COLLATION"@[0]);
        assert("TIME ZONE"@ != "COLLATION"@);
        assert("TIME ZONE"@[0] != "LOCK_MODE"@[0]);
        assert("TIME ZONE"@ != "LOCK_MODE"@);
        assert("TIME ZONE"@[0] != "EXCLUSIVE"@[0]);
        assert("TIME ZONE"@ != "EXCLUSIVE"@);
    } else if k == 43 {
        assert(type_names()[43] == "VARIABLE_BINARY"@);
        assert("VARIABLE_BINARY"@[0] != "MAX_MEMORY_ROWS"@[0]);
        assert("VARIABLE_BINARY"@ != "MAX_MEMORY_ROWS"@);
        assert("VARIABLE_BINARY"@[0] != "MAX_MEMORY_UNDO"@[0]);
        assert("VARIABLE_BINARY"@ != "MAX_MEMORY_UNDO"@);
        assert("VARIABLE_BINARY"@[0] != "REDO_LOG_BINARY"@[0]);
        assert("VARIABLE_BINARY"@ != "REDO_LOG_BINARY"@);
        assert("VARIABLE_BINARY"@[0] != "IGNORE_CATALOGS"@[0]);
        assert("VARIABLE_BINARY"@ != "IGNORE_CATALOGS"@);
    } else if k == 44 {
        assert(type_names()[44] == "DEFAULT_NULL_ORDERING"@);
        assert("DEFAULT_NULL_ORDERING"@[0] != "REFERENTIAL_INTEGRITY"@[0]);
        assert("DEFAULT_NULL_ORDERING"@ != "REFERENTIAL_INTEGRITY"@);
    } else if k == 45 {
        assert(type_names()[45] == "TRUNCATE_LARGE_LENGTH"@);
        assert("TRUNCATE_LARGE_LENGTH"@[0] != "REFERENTIAL_INTEGRITY"@[0]);
        assert("TRUNCATE_LARGE_LENGTH"@ != "REFERENTIAL_INTEGRITY"@);
        assert("TRUNCATE_LARGE_LENGTH"@[0] != "DEFAULT_NULL_ORDERING"@[0]);
        assert("TRUNCATE_LARGE_LENGTH"@ != "DEFAULT_NULL_ORDERING"@);
    }
}

/// No two types of SET statements have the same name, so looking up the name
/// of type `i` (`get_type` of `get_type_name(i)`) gives back `i`: the only
/// index whose name it is.
pub proof fn law_type_name_round_trip(i: int)
    requires
        0 <= i < type_names().len(),
    ensures
        forall|j: int| 0 <= j < type_names().len() && type_names()[j] == type_names()[i] ==> j == i,
{
    lemma_type_index(i);
    assert forall|j: int| 0 <= j < type_names().len() && type_names()[j] == type_names()[i] implies j == i by {
        lemma_type_index(j);
    }
}

} // verus!
