use vstd::prelude::*;
use crate::api::error_code;
use crate::engine::constant;
use crate::mvstore::data_utils;
use crate::engine::database::Database;
use crate::mvstore::data_utils::config_int;
use crate::mvstore::mv_store::{MVStore, MVStoreBuilder, file_name_of, has_page_cache, is_new_store, segment_count_of};
use crate::mvstore::store_config::ConfigValueView;
use crate::util::chars::str_concat;

verus! {

/// The error code of the database engine for an error code of the store:
/// closed, unsupported format, corrupt file and locked file have codes of
/// their own; every other is a general error.
pub open spec fn engine_error_code(store_code: i32) -> i32 {
    if store_code == data_utils::ERROR_CLOSED {
        error_code::DATABASE_IS_CLOSED
    } else if store_code == data_utils::ERROR_UNSUPPORTED_FORMAT {
        error_code::FILE_VERSION_ERROR_1
    } else if store_code == data_utils::ERROR_FILE_CORRUPT {
        error_code::FILE_CORRUPTED_1
    } else if store_code == data_utils::ERROR_FILE_LOCKED {
        error_code::DATABASE_ALREADY_OPEN_1
    } else {
        error_code::GENERAL_ERROR_1
    }
}

/// The error code of the database engine for an error code of the store; see
/// `engine_error_code`.
pub fn dataUtilsErrorCode2ErrorCode(store_code: i32) -> (r: i32)
    ensures
        r == engine_error_code(store_code),
{
    if store_code == data_utils::ERROR_CLOSED {
        error_code::DATABASE_IS_CLOSED
    } else if store_code == data_utils::ERROR_UNSUPPORTED_FORMAT {
        error_code::FILE_VERSION_ERROR_1
    } else if store_code == data_utils::ERROR_FILE_CORRUPT {
        error_code::FILE_CORRUPTED_1
    } else if store_code == data_utils::ERROR_FILE_LOCKED {
        error_code::DATABASE_ALREADY_OPEN_1
    } else {
        error_code::GENERAL_ERROR_1
    }
}

/// What opening the store of a database takes: the path of its file, whether
/// the directories of that file must be created first, the configuration of
/// the store, and whether it is encrypted.
pub struct StorePlan {
    pub mv_file_path: String,
    pub create_directories: bool,
    pub builder: MVStoreBuilder,
    pub encrypted: bool,
}

/// The configuration of the store of a database at `path` (none for an empty
/// path): its file, the page split size, read-only or the fill rate for
/// compaction (where at most 100), compression with larger pages, and no
/// auto-commit.
pub open spec fn store_config_of(
    path: Seq<char>,
    page_size: i32,
    read_only: bool,
    auto_compact_fill_rate: i32,
    compress_data: bool,
) -> Map<Seq<char>, ConfigValueView> {
    if path.len() == 0 {
        Map::empty()
    } else {
        let m0 = Map::<Seq<char>, ConfigValueView>::empty().insert(
            "fileName"@,
            ConfigValueView::Str(path + constant::SUFFIX_MV_FILE@),
        ).insert("pageSplitSize"@, ConfigValueView::Int(page_size));
        let m1 = if read_only {
            m0.insert("readOnly"@, ConfigValueView::Int(1))
        } else if auto_compact_fill_rate <= 100 {
            m0.insert("autoCompactFillRate"@, ConfigValueView::Int(auto_compact_fill_rate))
        } else {
            m0
        };
        let m2 = if compress_data {
            m1.insert("compress"@, ConfigValueView::Int(1)).insert("pageSplitSize"@, ConfigValueView::Int(65536))
        } else {
            m1
        };
        m2.insert("autoCommitDelay"@, ConfigValueView::Int(0))
    }
}

/// The store of a database.
pub struct Store {
    pub mv_file_path: String,
    pub encrypted: bool,
    pub mv_store: MVStore,
}

impl Store {
    /// Plans the store of `database`: `encrypted` tells whether there is an
    /// encryption key; `auto_compact_fill_rate` and `compress_data` are the
    /// settings of the database for compaction and compression;
    /// `mv_file_writable` tells whether the store file exists and may be
    /// written, else its directories must be created (unless the database is
    /// read-only).
    pub fn plan(
        database: &Database,
        encrypted: bool,
        auto_compact_fill_rate: i32,
        compress_data: bool,
        mv_file_writable: bool,
    ) -> (p: StorePlan)
        ensures
            p.builder.config.map() == store_config_of(
                database.database_path@,
                database.page_size,
                database.read_only,
                auto_compact_fill_rate,
                compress_data,
            ),
            database.database_path@.len() > 0 ==> p.mv_file_path@ == database.database_path@
                + constant::SUFFIX_MV_FILE@,
            database.database_path@.len() == 0 ==> p.mv_file_path@ == Seq::<char>::empty(),
            p.create_directories == (database.database_path@.len() > 0 && !database.read_only
                && !mv_file_writable),
            p.encrypted == (database.database_path@.len() > 0 && encrypted),
    {
        let mut builder = MVStoreBuilder::new();
        if database.database_path.unicode_len() == 0 {
            return StorePlan { mv_file_path: String::new(), create_directories: false, builder, encrypted: false };
        }
        let mv_file_path = str_concat(database.database_path.as_str(), constant::SUFFIX_MV_FILE);
        builder.fileName(mv_file_path.as_str());
        builder.page_split_size(database.page_size);
        let mut create_directories = false;
        if database.read_only {
            builder.read_only();
        } else {
            if !mv_file_writable {
                create_directories = true;
            }
            if auto_compact_fill_rate <= 100 {
                builder.auto_compact_fill_rate(auto_compact_fill_rate);
            }
        }
        if compress_data {
            builder.compress();
            builder.page_split_size(64 * 1024);
        }
        builder.auto_commit_disabled();
        StorePlan { mv_file_path, create_directories, builder, encrypted }
    }

    /// Opens the planned store, on a machine with `total_memory` bytes where
    /// that is known; see `MVStore::new`.
    pub fn new(plan: StorePlan, total_memory: Option<i64>) -> (s: Store)
        requires
            has_page_cache(plan.builder.config.map()) ==> segment_count_of(plan.builder.config.map()) > 0,
            file_name_of(plan.builder.config.map()) is Some ==> i32::MIN <= config_int(
                plan.builder.config.map(),
                "autoCommitBufferSize"@,
                1024,
            ) * 1024 <= i32::MAX,
        ensures
            s.mv_file_path == plan.mv_file_path,
            s.encrypted == plan.encrypted,
            exists|after: Map<Seq<char>, ConfigValueView>|
                is_new_store(s.mv_store, plan.builder.config.map(), total_memory, after),
    {
        let mut builder = plan.builder;
        let mv_store = builder.open(total_memory);
        Store { mv_file_path: plan.mv_file_path, encrypted: plan.encrypted, mv_store }
    }
}

/// Every plan can be opened: the configuration that `Store::plan` makes
/// always has what `Store::new` requires.
pub proof fn law_plan_opens(
    path: Seq<char>,
    page_size: i32,
    read_only: bool,
    auto_compact_fill_rate: i32,
    compress_data: bool,
)
    ensures
        ({
            let m = store_config_of(path, page_size, read_only, auto_compact_fill_rate, compress_data);
            &&& has_page_cache(m) ==> segment_count_of(m) > 0
            &&& file_name_of(m) is Some ==> i32::MIN <= config_int(m, "autoCommitBufferSize"@, 1024) * 1024
                <= i32::MAX
        }),
{
    reveal_strlit("cacheConcurrency");
    reveal_strlit("autoCommitBufferSize");
    reveal_strlit("fileName");
    reveal_strlit("pageSplitSize");
    reveal_strlit("readOnly");
    reveal_strlit("autoCompactFillRate");
    reveal_strlit("compress");
    reveal_strlit("autoCommitDelay");
    assert("cacheConcurrency"@.len() == 16);
    assert("autoCommitBufferSize"@.len() == 20);
    assert("fileName"@.len() == 8 && "pageSplitSize"@.len() == 13 && "readOnly"@.len() == 8);
    assert("autoCompactFillRate"@.len() == 19 && "compress"@.len() == 8 && "autoCommitDelay"@.len() == 15);
    assert("fileName"@[0] != "cacheConcurrency"@[0]);
    assert("readOnly"@[0] != "autoCommitBufferSize"@[0]);
}

} // verus!
