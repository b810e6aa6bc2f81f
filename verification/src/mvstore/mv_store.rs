use vstd::prelude::*;
use crate::h2_rust_common::h2_rust_constant::GB;
use crate::mvstore::cache::cache_long_key_lirs::{CacheLongKeyLIRS, CacheLongKeyLIRSConfig, is_default_config, max_item_size_of};
use crate::mvstore::page::{Page, IN_MEMORY};
use crate::mvstore::chunk::{fromString, chunk_outcome};
use crate::mvstore::data_utils::{getPageChunkId, is_page_saved, parsed_map, ERROR_CHUNK_NOT_FOUND, ERROR_CLOSED};
use crate::mvstore::cache::cache_long_key_lirs::{has_key, get_hash};
use crate::db::store::{dataUtilsErrorCode2ErrorCode, engine_error_code};
use crate::message::db_error::{DbError, is_error, one_param};
use crate::h2_rust_common::h2_rust_type::{H2RustType, string_value};
use crate::api::error_code;
use crate::util::chars::str_concat;
use crate::util::numfmt::{decimal_of, i32_to_decimal};
use crate::mvstore::chunk::{Chunk, ChunkView};
use crate::mvstore::mv_map::{is_empty_root, MVMap};
use crate::mvstore::page::PageContent;
use crate::mvstore::types::string_data_type::StringDataType;
use crate::mvstore::data_utils::{config_int, get_config_int_param};
use crate::mvstore::file_store::FileStore;
use crate::mvstore::store_config::{ConfigValue, ConfigValueView, StoreConfig};
use crate::util::chars::to_owned_string;
use crate::util::utils::{memory_factor, scaleForAvailableMemory, scaled_for_memory, trunc_div};

verus! {

/// The block size of a store file.
pub const BLOCK_SIZE: i32 = 4096;

/// The oldest file format that is written.
pub const FORMAT_WRITE_MIN: i32 = 2;

/// The newest file format that is written.
pub const FORMAT_WRITE_MAX: i32 = 2;

/// The oldest file format that is read.
pub const FORMAT_READ_MIN: i32 = 2;

/// The newest file format that is read.
pub const FORMAT_READ_MAX: i32 = 2;

/// The "last stored" version of a store that was just opened for the first time.
pub const INITIAL_VERSION: i64 = -1;

/// The store is about to close, but still operational.
pub const STATE_STOPPING: i32 = 1;

/// The header of a new store file.
pub struct StoreHeader {
    /// The header marker: 2.
    pub h: i32,
    pub block_size: i32,
    pub format: i32,
    /// When the store was created, in milliseconds since the epoch.
    pub created: i64,
}

/// A store of versioned maps: its settings, caches, file and versions.
pub struct MVStore {
    pub recovery_mode: bool,
    pub compression_level: i32,
    pub file_name: Option<String>,
    pub file_store: Option<FileStore>,
    pub file_store_shall_be_closed: bool,
    pub page_cache: Option<CacheLongKeyLIRS<Page>>,
    pub chunk_cache: Option<CacheLongKeyLIRS<Vec<i64>>>,
    pub page_split_size: i32,
    pub keys_per_page: i32,
    pub retention_time: i32,
    pub auto_commit_memory: i32,
    pub auto_compact_fill_rate: i32,
    pub encryption_key: Option<ConfigValue>,
    pub read_only: bool,
    pub creation_time: i64,
    pub store_header: Option<StoreHeader>,
    pub last_chunk: Option<Chunk>,
    pub last_chunk_id: i32,
    pub last_map_id: i32,
    pub current_version: i64,
    pub oldest_version_to_keep: i64,
    pub versions_to_keep: i32,
    /// Open (0), stopping (1), or closing and closed beyond.
    pub state: i32,
    /// The chunks known so far.
    pub chunks: Vec<Chunk>,
    /// The layout map: the metadata of the chunks and the root positions of
    /// all maps.
    pub layout: Option<MVMap>,
}

/// Whether no two of `chunks` have the same id.
pub open spec fn chunk_ids_unique(chunks: Seq<Chunk>) -> bool {
    forall|i: int, j: int| 0 <= i < j < chunks.len() ==> #[trigger] chunks[i].id != #[trigger] chunks[j].id
}

/// Whether `after` is `before` with the chunk `v` put in: in place of the
/// first chunk with its id, where there is one, else at the end.
pub open spec fn chunk_put(before: Seq<Chunk>, v: ChunkView, after: Seq<Chunk>) -> bool {
    if exists|i: int| 0 <= i < before.len() && before[i].id == v.id {
        let i = choose|i: int| 0 <= i < before.len() && before[i].id == v.id && forall|k: int| 0 <= k < i ==> before[k].id != v.id;
        &&& after.len() == before.len()
        &&& after[i].view_of() == v
        &&& forall|k: int| 0 <= k < before.len() && k != i ==> after[k] == before[k]
    } else {
        &&& after.len() == before.len() + 1
        &&& after.last().view_of() == v
        &&& forall|k: int| 0 <= k < before.len() ==> after[k] == before[k]
    }
}

/// Whether `p` is the root that a map with id `id` takes from the position
/// 0: a fresh copy of an empty leaf of that map.
pub open spec fn is_fresh_root(p: Page, id: i32) -> bool {
    &&& p.map_id == id
    &&& p.memory == 0
    &&& p.keys@.len() == 0
    &&& p.position == 0
    &&& p.page_no == 0
    &&& p.cached_compare == 0
    &&& p.disk_space_used == 0
    &&& p.content matches PageContent::Leaf(v) && v@.len() == 0
}

/// The file name that a configuration gives: a text set under `fileName`.
pub open spec fn file_name_of(m: Map<Seq<char>, ConfigValueView>) -> Option<Seq<char>> {
    if m.contains_key("fileName"@) {
        match m["fileName"@] {
            ConfigValueView::Str(s) => Some(s),
            _ => None,
        }
    } else {
        None
    }
}

/// The number of cache segments that a configuration asks for: a number set
/// under `cacheConcurrency`, or the default of 16.
pub open spec fn segment_count_of(m: Map<Seq<char>, ConfigValueView>) -> i32 {
    if m.contains_key("cacheConcurrency"@) {
        match m["cacheConcurrency"@] {
            ConfigValueView::Int(c) => c,
            _ => 16,
        }
    } else {
        16
    }
}

/// Whether a store with the configuration `m` has a page cache: it has a file
/// and a positive cache size (in MiB, 16 by default).
pub open spec fn has_page_cache(m: Map<Seq<char>, ConfigValueView>) -> bool {
    file_name_of(m) is Some && config_int(m, "cacheSize"@, 16) > 0
}

/// The page split size of a store with the configuration `m`: set under
/// `pageSplitSize`, by default 16 KiB with a file and 48 without, and no more
/// than the largest item of the page cache (taken as an `i32`).
pub open spec fn page_split_size_of(m: Map<Seq<char>, ConfigValueView>) -> i32 {
    let d: i32 = if file_name_of(m) is Some {
        16384i32
    } else {
        48i32
    };
    let p = config_int(m, "pageSplitSize"@, d);
    if has_page_cache(m) {
        let max = max_item_size_of(
            (config_int(m, "cacheSize"@, 16) * 1024 * 1024) as i64,
            segment_count_of(m),
        ) as i32;
        if p > max {
            max
        } else {
            p
        }
    } else {
        p
    }
}

/// The default auto-commit buffer size, in KiB, on a machine with
/// `total_memory` bytes: 64 scaled by the memory, held between 1 and 19, times
/// 1024.
pub open spec fn auto_commit_kb_default(total_memory: Option<i64>) -> int {
    let s = scaled_for_memory(64, total_memory);
    let bounded = if s < 19 {
        s
    } else {
        19
    };
    (if bounded > 1 {
        bounded
    } else {
        1
    }) * 1024
}

/// The scaled default is small.
proof fn lemma_scaled_small(total_memory: Option<i64>)
    ensures
        -128 <= scaled_for_memory(64, total_memory) <= 64,
{
    if let Some(t) = total_memory {
        let x = (t as i32) as int;
        assert(-0x8000_0000 <= x < 0x8000_0000);
        assert(GB == 0x4000_0000);
        assert(-2 <= trunc_div(x, GB as int) <= 1);
        assert(-2 <= memory_factor(t) <= 1);
    }
}

/// Whether `s` is the store that `MVStore::new` makes from the configuration
/// `m` on a machine with `total_memory` bytes, leaving the configuration
/// `after`: see `MVStore::new`.
pub open spec fn is_new_store(
    s: MVStore,
    m: Map<Seq<char>, ConfigValueView>,
    total_memory: Option<i64>,
    after: Map<Seq<char>, ConfigValueView>,
) -> bool {
    let file = file_name_of(m);
    &&& s.recovery_mode == m.contains_key("recoveryMode"@)
    &&& s.compression_level == config_int(m, "compress"@, 0)
    &&& (match s.file_name {
        Some(n) => file == Some(n@),
        None => file is None,
    })
    &&& s.file_store is Some == file is Some
    &&& (s.file_store matches Some(f) ==> !f.open && !f.locked)
    &&& s.file_store_shall_be_closed
    &&& (has_page_cache(m) ==> (s.page_cache matches Some(c) && c@.max_memory == config_int(
        m,
        "cacheSize"@,
        16,
    ) * 1024 * 1024 && c@.segment_count == segment_count_of(m) && c@.stack_move_distance == 32
        && c@.non_resident_queue_size == 3 && c@.non_resident_queue_size_high == 12 && (segment_count_of(m)
        >= 2 ==> c@.wf())))
    &&& (!has_page_cache(m) ==> s.page_cache is None)
    &&& (file is Some ==> (s.chunk_cache matches Some(c) && c@.max_memory == 1024 * 1024
        && c@.segment_count == 16 && c@.stack_move_distance == 32 && c@.wf()))
    &&& (file is None ==> s.chunk_cache is None)
    &&& s.page_split_size == page_split_size_of(m)
    &&& s.keys_per_page == config_int(m, "keysPerPage"@, 48)
    &&& (file is Some ==> {
        &&& s.retention_time == 45000
        &&& s.auto_commit_memory == config_int(
            m,
            "autoCommitBufferSize"@,
            auto_commit_kb_default(total_memory) as i32,
        ) * 1024
        &&& s.auto_compact_fill_rate == config_int(m, "autoCompactFillRate"@, 90)
        &&& s.read_only == m.contains_key("readOnly"@)
        &&& (match s.encryption_key {
            Some(k) => m.contains_key("encryptionKey"@) && k@ == m["encryptionKey"@],
            None => !m.contains_key("encryptionKey"@),
        })
        &&& after == m.remove("encryptionKey"@)
    })
    &&& (file is None ==> after == m && s.encryption_key is None)
    &&& s.last_chunk is None
    &&& s.current_version == 0
    &&& s.versions_to_keep == 5
    &&& s.store_header is None
    &&& s.state == 0
    &&& s.chunks@.len() == 0
    &&& s.layout matches Some(l) && {
        &&& l.id == 0 && l.has_store && !l.is_volatile && !l.read_only && !l.closed
        &&& l.create_version == 0 && l.keys_per_page == s.keys_per_page && !l.single_writer
        &&& l.root_reference matches Some(rr) && rr.version == 0 && is_empty_root(rr.root, 0, true)
    }
}

/// Whether the layout map `after` is `before` with a fresh empty leaf as its
/// root at `version` (see `is_fresh_root`).
pub open spec fn layout_root_taken(before: Option<MVMap>, after: Option<MVMap>, version: int) -> bool {
    match before {
        None => after is None,
        Some(l0) => (after matches Some(l) && l == (MVMap { root_reference: l.root_reference, ..l0 })
            && (l.root_reference matches Some(rr) && rr.version == version && is_fresh_root(rr.root, l0.id))),
    }
}

/// What a read of the page at `position` gives from a store with this page
/// cache: position 0 or 1 is no saved page, an internal error; a page that
/// the cache holds comes back as a copy; otherwise nothing, and the page is
/// to be read from its chunk.
pub open spec fn page_read_outcome(
    cache: Option<CacheLongKeyLIRS<Page>>,
    position: i64,
    r: Result<Option<Page>, DbError>,
) -> bool {
    &&& (position == 0 || position == 1) ==> (r matches Err(e) && is_error(
        e,
        error_code::GENERAL_ERROR_1,
        seq!["ERROR_FILE_CORRUPT,Position 0"@],
    ))
    &&& position != 0 && position != 1 && cache is None ==> r == Ok::<Option<Page>, DbError>(None)
    &&& position != 0 && position != 1 ==> (cache matches Some(c) ==> ({
        let seg = c@.segment_of(position);
        &&& !has_key(seg.entries, position) ==> r == Ok::<Option<Page>, DbError>(None)
        &&& has_key(seg.entries, position) && seg.entry(position).value is None ==> r == Ok::<
            Option<Page>,
            DbError,
        >(None)
        &&& has_key(seg.entries, position) ==> (seg.entry(position).value matches Some(v) ==> (r matches Ok(Some(w))
            && cloned::<Page>(v, w)))
    }))
}

impl MVStore {
    /// The store that the configuration `config` describes, on a machine with
    /// `total_memory` bytes where that is known. A store with a file (a text
    /// under `fileName`) gets a file store, not open yet, a page cache where
    /// the cache size is positive and a chunk cache; its auto-commit memory,
    /// fill rate, read-only flag and encryption key (taken out of the
    /// configuration) are read.
    pub fn new(config: &mut StoreConfig, total_memory: Option<i64>) -> (s: MVStore)
        requires
            has_page_cache(old(config).map()) ==> segment_count_of(old(config).map()) > 0,
            file_name_of(old(config).map()) is Some ==> i32::MIN <= config_int(
                old(config).map(),
                "autoCommitBufferSize"@,
                1024,
            ) * 1024 <= i32::MAX,
        ensures
            is_new_store(s, old(config).map(), total_memory, final(config).map()),
    {
        let recovery_mode = config.contains_key("recoveryMode");
        let compression_level = get_config_int_param(config, "compress", 0);
        let file_name: Option<String> = match config.get("fileName") {
            Some(ConfigValue::Str(n)) => Some(n.clone()),
            _ => None,
        };
        let file_store = if file_name.is_some() {
            Some(FileStore::new())
        } else {
            None
        };
        let mut page_split_size: i32 = 48;
        let mut page_cache: Option<CacheLongKeyLIRS<Page>> = None;
        let mut chunk_cache: Option<CacheLongKeyLIRS<Vec<i64>>> = None;
        if file_store.is_some() {
            let cache_size = get_config_int_param(config, "cacheSize", 16);
            if cache_size > 0 {
                let mut c = CacheLongKeyLIRSConfig::new();
                c.max_memory = cache_size as i64 * 1024 * 1024;
                match config.get("cacheConcurrency") {
                    Some(ConfigValue::Int(n)) => {
                        c.segment_count = *n;
                    },
                    _ => {},
                }
                page_cache = Some(CacheLongKeyLIRS::new(&c));
            }
            let mut c = CacheLongKeyLIRSConfig::new();
            c.max_memory = 1024 * 1024;
            chunk_cache = Some(CacheLongKeyLIRS::new(&c));
            page_split_size = 16 * 1024;
        }
        page_split_size = get_config_int_param(config, "pageSplitSize", page_split_size);
        match &page_cache {
            Some(c) => {
                let max_item_size = c.get_max_item_size() as i32;
                if page_split_size > max_item_size {
                    page_split_size = max_item_size;
                }
            },
            None => {},
        }
        let keys_per_page = get_config_int_param(config, "keysPerPage", 48);
        let mut store = MVStore {
            recovery_mode,
            compression_level,
            file_name,
            file_store,
            file_store_shall_be_closed: true,
            page_cache,
            chunk_cache,
            page_split_size,
            keys_per_page,
            retention_time: 0,
            auto_commit_memory: 0,
            auto_compact_fill_rate: 0,
            encryption_key: None,
            read_only: false,
            creation_time: 0,
            store_header: None,
            last_chunk: None,
            last_chunk_id: 0,
            last_map_id: 0,
            current_version: 0,
            oldest_version_to_keep: 0,
            versions_to_keep: 5,
            state: 0,
            chunks: Vec::new(),
            layout: None,
        };
        store.layout = match MVMap::new(&store, 0, StringDataType {}, StringDataType {}) {
            Ok(m) => Some(m),
            Err(_) => None,
        };
        if store.file_store.is_some() {
            store.retention_time = 45000;
            proof {
                lemma_scaled_small(total_memory);
            }
            let scaled = scaleForAvailableMemory(64, total_memory);
            let bounded = if scaled < 19 {
                scaled
            } else {
                19
            };
            let mut kb: i32 = (if bounded > 1 {
                bounded
            } else {
                1
            }) * 1024;
            kb = get_config_int_param(config, "autoCommitBufferSize", kb);
            store.auto_commit_memory = kb * 1024;
            store.auto_compact_fill_rate = get_config_int_param(config, "autoCompactFillRate", 90);
            store.encryption_key = config.remove("encryptionKey");
            proof {
                reveal_strlit("readOnly");
                reveal_strlit("encryptionKey");
                assert("readOnly"@.len() != "encryptionKey"@.len());
            }
            store.read_only = config.contains_key("readOnly");
        }
        store
    }

    /// Takes the size of the store file once it is open, and the time `now`
    /// (in milliseconds since the epoch): an empty file is a new store, which
    /// gets its creation time, its header (marker 2, block size, newest
    /// format, creation time) and no last chunk.
    pub fn file_opened(&mut self, size: i64, now: i64)
        ensures
            size == 0 ==> final(self).creation_time == now && (final(self).store_header matches Some(h) && h.h
                == 2 && h.block_size == BLOCK_SIZE && h.format == FORMAT_WRITE_MAX && h.created == now)
                && final(self).last_chunk is None && final(self).last_chunk_id == 0 && final(self).last_map_id
                == 0 && final(self).current_version == INITIAL_VERSION + 1,
            size != 0 ==> final(self).creation_time == old(self).creation_time && final(self).store_header
                == old(self).store_header && final(self).current_version == old(self).current_version,
            size != 0 ==> final(self).layout == old(self).layout,
            size == 0 ==> layout_root_taken(old(self).layout, final(self).layout, INITIAL_VERSION as int),
            final(self).page_split_size == old(self).page_split_size,
            final(self).file_name == old(self).file_name,
    {
        if size == 0 {
            self.creation_time = now;
            self.store_header = Some(
                StoreHeader { h: 2, block_size: BLOCK_SIZE, format: FORMAT_WRITE_MAX, created: now },
            );
            self.set_last_chunk(None);
        }
    }

    /// Makes `last_chunk` the last chunk: the current version, the last chunk
    /// id and the last map id come from it, or are reset where there is none.
    /// Where the layout root lies at position 0 (always so without a chunk),
    /// the layout map takes a fresh empty leaf as its root at the version
    /// before the current one; the layout map then waits in vain for its root
    /// to reach the current version, and that wait is not made here. A root
    /// at another position is left to be read from its chunk (see
    /// `MVMap::readOrCreateRootPage`).
    fn set_last_chunk(&mut self, last_chunk: Option<Chunk>)
        requires
            last_chunk matches Some(c) ==> c.version > i64::MIN,
        ensures
            (match last_chunk {
                Some(c) => c.layout_root_pos,
                None => 0,
            }) == 0 ==> layout_root_taken(old(self).layout, final(self).layout, final(self).current_version - 1),
            (match last_chunk {
                Some(c) => c.layout_root_pos,
                None => 0,
            }) != 0 ==> final(self).layout == old(self).layout,
            last_chunk matches Some(c) ==> final(self).last_chunk_id == c.id && final(self).current_version
                == c.version && final(self).last_map_id == c.map_id,
            last_chunk is None ==> final(self).last_chunk_id == 0 && final(self).current_version
                == INITIAL_VERSION + 1 && final(self).last_map_id == 0,
            final(self).last_chunk is Some == last_chunk is Some,
            final(self).creation_time == old(self).creation_time,
            final(self).store_header == old(self).store_header,
            final(self).page_split_size == old(self).page_split_size,
            final(self).file_name == old(self).file_name,
    {
        self.last_chunk_id = 0;
        self.last_map_id = 0;
        self.current_version = INITIAL_VERSION + 1;
        match &last_chunk {
            Some(c) => {
                self.last_chunk_id = c.id;
                self.current_version = c.version;
                self.last_map_id = c.map_id;
            },
            None => {},
        }
        let layout_root_pos: i64 = match &last_chunk {
            Some(c) => c.layout_root_pos,
            None => 0,
        };
        self.last_chunk = last_chunk;
        if layout_root_pos == 0 {
            let version = self.current_version - 1;
            match &mut self.layout {
                Some(l) => {
                    let leaf = l.createEmptyLeaf();
                    l.take_root_copy(leaf, version);
                },
                None => {},
            }
        }
    }

    /// Whether the store is open or stopping, not closing or closed.
    pub fn is_open_or_stopping(&self) -> (r: bool)
        ensures
            r == (self.state <= STATE_STOPPING),
    {
        self.state <= STATE_STOPPING
    }

    /// Fails with the error for a closed store where the store is closing or
    /// closed.
    pub fn check_open(&self) -> (r: Result<(), DbError>)
        ensures
            self.state <= STATE_STOPPING ==> r is Ok,
            self.state > STATE_STOPPING ==> (r matches Err(e) && is_error(
                e,
                engine_error_code(ERROR_CLOSED),
                Seq::empty(),
            )),
    {
        if !self.is_open_or_stopping() {
            let code = dataUtilsErrorCode2ErrorCode(ERROR_CLOSED);
            let params: Vec<String> = Vec::new();
            proof {
                assert(params.deep_view() =~= Seq::<Seq<char>>::empty());
            }
            return Err(DbError::get(code, params));
        }
        Ok(())
    }

    /// Puts the page in the page cache, where there is one, under its
    /// position and with its memory.
    pub fn cachePage(&mut self, page: Page) -> (r: Result<(), DbError>)
        requires
            page.memory >= 0 || page.memory == IN_MEMORY,
            old(self).page_cache matches Some(c) ==> ({
                let m = if page.memory != IN_MEMORY {
                    page.memory as int
                } else {
                    0
                };
                &&& c@.wf()
                &&& c@.segment_of(page.position).used_memory + m <= i64::MAX
                &&& c@.segment_of(page.position).stack.len() < i32::MAX
            }),
        ensures
            r is Ok,
            old(self).page_cache is None ==> *final(self) == *old(self),
            final(self).page_cache is Some == old(self).page_cache is Some,
            final(self).page_cache matches Some(c) ==> ({
                let m = if page.memory != IN_MEMORY {
                    page.memory as int
                } else {
                    0
                };
                let max = old(self).page_cache->0@.segment_of(page.position).max_memory;
                &&& c@.wf()
                &&& m <= max ==> has_key(c@.segment_of(page.position).entries, page.position)
                    && c@.segment_of(page.position).entry(page.position).value == Some(page)
                &&& m > max ==> !has_key(c@.segment_of(page.position).entries, page.position)
            }),
    {
        match &mut self.page_cache {
            Some(c) => {
                let position = page.position;
                let memory = page.get_memory();
                let r = c.put(position, Some(page), memory);
                r
            },
            None => Ok(()),
        }
    }

    /// The page at `position` where the page cache holds it.
    fn read_page_from_cache(&mut self, position: i64) -> (r: Option<Page>)
        requires
            old(self).page_cache matches Some(c) ==> c@.wf(),
        ensures
            final(self).page_cache matches Some(c) ==> c@.wf(),
            final(self).page_cache is Some == old(self).page_cache is Some,
            old(self).page_cache is None ==> r is None,
            old(self).page_cache matches Some(c) ==> ({
                let seg = c@.segment_of(position);
                &&& !has_key(seg.entries, position) ==> r is None
                &&& has_key(seg.entries, position) && seg.entry(position).value is None ==> r is None
                &&& has_key(seg.entries, position) ==> (seg.entry(position).value matches Some(v) ==> (r matches Some(
                    w,
                ) && cloned::<Page>(v, w)))
            }),
    {
        match &mut self.page_cache {
            None => None,
            Some(c) => c.get(position),
        }
    }

    /// The page at `position` where the page cache holds it; `None` where it
    /// must be read from its chunk (see `get_chunk`) and then cached. Position
    /// 0 (or 1) is no saved page: an internal error.
    pub fn readPage(&mut self, position: i64) -> (r: Result<Option<Page>, DbError>)
        requires
            old(self).page_cache matches Some(c) ==> c@.wf(),
        ensures
            final(self).page_cache matches Some(c) ==> c@.wf(),
            page_read_outcome(old(self).page_cache, position, r),
    {
        if !is_page_saved(position) {
            return Err(DbError::get_internal_error("ERROR_FILE_CORRUPT,Position 0"));
        }
        Ok(self.read_page_from_cache(position))
    }

    /// The chunk of the page at `position` among the chunks known so far.
    /// Where it is not known yet, `None`: it is to be looked up in the layout
    /// map `layout` under its key (see `chunk::get_meta_key` and `MVMap::get`,
    /// whose lookup reads pages from their chunks step by step) and added
    /// with `add_chunk`; a store that is closing or closed fails.
    pub fn get_chunk(&self, position: i64) -> (r: Result<Option<&Chunk>, DbError>)
        ensures
            ({
                let id = (position as u64) / 0x40_0000_0000;
                &&& (exists|i: int| 0 <= i < self.chunks@.len() && self.chunks@[i].id == id) ==> (r matches Ok(Some(c))
                    && c.id == id)
                &&& !(exists|i: int| 0 <= i < self.chunks@.len() && self.chunks@[i].id == id) ==> {
                    &&& self.state <= STATE_STOPPING ==> (r matches Ok(None))
                    &&& self.state > STATE_STOPPING ==> (r matches Err(e) && is_error(
                        e,
                        engine_error_code(ERROR_CLOSED),
                        Seq::empty(),
                    ))
                }
            }),
    {
        let chunk_id = getPageChunkId(position);
        let mut i: usize = 0;
        while i < self.chunks.len()
            invariant
                i <= self.chunks@.len(),
                chunk_id == (position as u64) / 0x40_0000_0000,
                forall|j: int| 0 <= j < i ==> self.chunks@[j].id != chunk_id,
            decreases self.chunks@.len() - i,
        {
            if self.chunks[i].id == chunk_id {
                return Ok(Some(&self.chunks[i]));
            }
            i = i + 1;
        }
        self.check_open()?;
        Ok(None)
    }

    /// Adds the chunk `chunk_id` from what the layout map holds under its key:
    /// nothing is the error that the chunk was not found; else the text is
    /// read as a chunk, which must be saved.
    pub fn add_chunk(&mut self, chunk_id: i32, value: &H2RustType) -> (r: Result<(), DbError>)
        requires
            !(value is Integer),
        ensures
            value is Null ==> (r matches Err(e) && is_error(
                e,
                engine_error_code(ERROR_CHUNK_NOT_FOUND),
                seq!["Chunk "@ + decimal_of(chunk_id as int) + " not found"@],
            )) && final(self).chunks == old(self).chunks,
            value is String ==> match parsed_map(string_value(*value)) {
                None => r is Err,
                Some(m) => match chunk_outcome(m, true) {
                    Err(x) => r matches Err(e) && is_error(e, x.0, x.1),
                    Ok(v) => if v.block == i64::MAX {
                        r matches Err(e) && is_error(
                            e,
                            error_code::FILE_CORRUPTED_1,
                            seq!["chunk "@ + decimal_of(chunk_id as int) + " is invalid"@],
                        )
                    } else {
                        r is Ok && chunk_put(old(self).chunks@, v, final(self).chunks@)
                    },
                },
            },
            r is Err ==> final(self).chunks == old(self).chunks,
            chunk_ids_unique(old(self).chunks@) ==> chunk_ids_unique(final(self).chunks@),
    {
        if value.isNull() {
            let m1 = str_concat("Chunk ", i32_to_decimal(chunk_id).as_str());
            let m2 = str_concat(m1.as_str(), " not found");
            proof {
                assert(m2@ =~= "Chunk "@ + decimal_of(chunk_id as int) + " not found"@);
            }
            let code = dataUtilsErrorCode2ErrorCode(ERROR_CHUNK_NOT_FOUND);
            return Err(DbError::get(code, one_param(m2.as_str())));
        }
        let chunk = fromString(value.castAsStringRef().as_str())?;
        if !chunk.isSaved() {
            let m1 = str_concat("chunk ", i32_to_decimal(chunk_id).as_str());
            let m2 = str_concat(m1.as_str(), " is invalid");
            proof {
                assert(m2@ =~= "chunk "@ + decimal_of(chunk_id as int) + " is invalid"@);
            }
            return Err(DbError::get(error_code::FILE_CORRUPTED_1, one_param(m2.as_str())));
        }
        let ghost before = self.chunks@;
        let mut i: usize = 0;
        while i < self.chunks.len() && self.chunks[i].id != chunk.id
            invariant
                self.chunks@ == before,
                i <= before.len(),
                forall|k: int| 0 <= k < i ==> before[k].id != chunk.id,
            decreases before.len() - i,
        {
            i = i + 1;
        }
        if i < self.chunks.len() {
            let ghost cv = chunk.view_of();
            self.chunks.set(i, chunk);
            proof {
                let after = self.chunks@;
                assert(after[i as int].view_of() == cv);
                assert(before[i as int].id == cv.id);
                assert(forall|k: int| 0 <= k < i ==> before[k].id != cv.id);
                let j = choose|j: int|
                    0 <= j < before.len() && before[j].id == cv.id && forall|k: int| 0 <= k < j ==> before[k].id != cv.id;
                assert(j == i) by {
                    if j < i {
                    } else if j > i {
                        assert(before[i as int].id != cv.id);
                    }
                }
                assert forall|a: int, b: int| 0 <= a < b < after.len() && chunk_ids_unique(before) implies #[trigger] after[a].id
                    != #[trigger] after[b].id by {
                    assert(before[a].id != before[b].id);
                }
            }
            return Ok(());
        }
        let ghost cv = chunk.view_of();
        self.chunks.push(chunk);
        proof {
            let after = self.chunks@;
            assert(after.last().view_of() == cv);
            assert forall|a: int, b: int| 0 <= a < b < after.len() && chunk_ids_unique(before) implies #[trigger] after[a].id
                != #[trigger] after[b].id by {
                if b == before.len() {
                    assert(before[a].id != cv.id);
                } else {
                    assert(before[a].id != before[b].id);
                }
            }
        }
        Ok(())
    }

    /// The current version of the store.
    pub fn get_current_version(&self) -> (r: i64)
        ensures
            r == self.current_version,
    {
        self.current_version
    }

    /// The version of the last chunk, or the first version where there is none.
    fn last_chunk_version(&self) -> (r: i64)
        ensures
            self.last_chunk matches Some(c) ==> r == c.version,
            self.last_chunk is None ==> r == INITIAL_VERSION + 1,
    {
        match &self.last_chunk {
            Some(c) => c.version,
            None => INITIAL_VERSION + 1,
        }
    }

    /// The oldest version to keep: the version marked to keep, less the number
    /// of versions to keep, and not below the initial version; for a store with
    /// a file, the version before the last chunk where that is older (and not
    /// the initial version).
    pub fn getOldestVersionToKeep(&self) -> (r: i64)
        requires
            i64::MIN <= self.oldest_version_to_keep - self.versions_to_keep <= i64::MAX,
            self.last_chunk matches Some(c) ==> c.version > i64::MIN,
        ensures
            ({
                let v0 = self.oldest_version_to_keep - self.versions_to_keep;
                let v = if v0 > INITIAL_VERSION {
                    v0
                } else {
                    INITIAL_VERSION as int
                };
                let store_version = (match self.last_chunk {
                    Some(c) => c.version as int,
                    None => INITIAL_VERSION + 1,
                }) - 1;
                r == if self.file_store is Some && store_version != INITIAL_VERSION && store_version < v {
                    store_version
                } else {
                    v
                }
            }),
    {
        let v0 = self.oldest_version_to_keep - self.versions_to_keep as i64;
        let mut v = if v0 > INITIAL_VERSION {
            v0
        } else {
            INITIAL_VERSION
        };
        if self.file_store.is_some() {
            let store_version = self.last_chunk_version() - 1;
            if store_version != INITIAL_VERSION && store_version < v {
                v = store_version;
            }
        }
        v
    }
}

/// A builder of the configuration of a store.
pub struct MVStoreBuilder {
    pub config: StoreConfig,
}

impl MVStoreBuilder {
    /// A builder with an empty configuration.
    pub fn new() -> (b: MVStoreBuilder)
        ensures
            b.config.map() == Map::<Seq<char>, ConfigValueView>::empty(),
    {
        MVStoreBuilder { config: StoreConfig::new() }
    }

    /// Opens the store that the configuration describes; see `MVStore::new`.
    pub fn open(&mut self, total_memory: Option<i64>) -> (s: MVStore)
        requires
            has_page_cache(old(self).config.map()) ==> segment_count_of(old(self).config.map()) > 0,
            file_name_of(old(self).config.map()) is Some ==> i32::MIN <= config_int(
                old(self).config.map(),
                "autoCommitBufferSize"@,
                1024,
            ) * 1024 <= i32::MAX,
        ensures
            is_new_store(s, old(self).config.map(), total_memory, final(self).config.map()),
    {
        MVStore::new(&mut self.config, total_memory)
    }

    /// Sets the file name.
    pub fn fileName(&mut self, file_name: &str)
        ensures
            final(self).config.map() == old(self).config.map().insert(
                "fileName"@,
                ConfigValueView::Str(file_name@),
            ),
    {
        self.config.insert(to_owned_string("fileName"), ConfigValue::Str(to_owned_string(file_name)));
    }

    /// Sets the page split size.
    pub fn page_split_size(&mut self, page_split_size: i32)
        ensures
            final(self).config.map() == old(self).config.map().insert(
                "pageSplitSize"@,
                ConfigValueView::Int(page_split_size),
            ),
    {
        self.config.insert(to_owned_string("pageSplitSize"), ConfigValue::Int(page_split_size));
    }

    /// Opens the store read-only.
    pub fn read_only(&mut self)
        ensures
            final(self).config.map() == old(self).config.map().insert("readOnly"@, ConfigValueView::Int(1)),
    {
        self.config.insert(to_owned_string("readOnly"), ConfigValue::Int(1));
    }

    /// Disables auto-commit.
    pub fn auto_commit_disabled(&mut self)
        ensures
            final(self).config.map() == old(self).config.map().insert("autoCommitDelay"@, ConfigValueView::Int(0)),
    {
        self.config.insert(to_owned_string("autoCommitDelay"), ConfigValue::Int(0));
    }

    /// Sets the fill rate below which chunks are compacted.
    pub fn auto_compact_fill_rate(&mut self, value: i32)
        ensures
            final(self).config.map() == old(self).config.map().insert(
                "autoCompactFillRate"@,
                ConfigValueView::Int(value),
            ),
    {
        self.config.insert(to_owned_string("autoCompactFillRate"), ConfigValue::Int(value));
    }

    /// Compresses the data.
    pub fn compress(&mut self)
        ensures
            final(self).config.map() == old(self).config.map().insert("compress"@, ConfigValueView::Int(1)),
    {
        self.config.insert(to_owned_string("compress"), ConfigValue::Int(1));
    }
}

} // verus!
