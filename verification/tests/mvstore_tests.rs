use h2_rust::api::error_code;
use h2_rust::h2_rust_common::byte_buffer::wrapVec;
use h2_rust::mvstore::chunk::{Chunk, PageReadStep};
use h2_rust::mvstore::page::{createRefStorage, get, readFromByteBuffer, GetStep, Page, PageContent, PageReference, PAGE_LEAF_MEMORY};
use h2_rust::h2_rust_common::h2_rust_type::H2RustType;
use h2_rust::mvstore::cache::cache_long_key_lirs::{getHash, CacheLongKeyLIRS, CacheLongKeyLIRSConfig, Entry, Segment};
use h2_rust::mvstore::file_store::{FileStore, OpenAction, OpenOutcome};
use h2_rust::mvstore::mv_map::{getMapKey, getMapRootKey, MVMap};
use h2_rust::mvstore::root_reference::RootReference;
use h2_rust::mvstore::mv_store::{MVStoreBuilder, BLOCK_SIZE};
use h2_rust::mvstore::mv_store_tool::{compact_clean_up, CleanUpAction};
use h2_rust::mvstore::types::string_data_type::StringDataType;
use std::cmp::Ordering;

fn s(x: &str) -> H2RustType {
    H2RustType::String(x.to_string())
}

#[test]
fn hash_of_keys() {
    assert_eq!(getHash(0), 0);
    assert_eq!(getHash(1), 0);
    assert_eq!(getHash(-1), 0);
    assert_eq!(getHash(65536), 824515495);
    assert_eq!(getHash(123456789), 549283652);
    assert_eq!(getHash(1 << 20), 966621358);
}

#[test]
fn entry_constructors() {
    let e: Entry<String> = Entry::new3(5, "five".to_string(), 10);
    assert_eq!(e.key, 5);
    assert!(e.isHot());
    assert_eq!(e.getValue(), Some("five".to_string()));
    assert_eq!(e.getMemory(), 10);
    let c = Entry::new1(&e);
    assert_eq!(c.key, 5);
    assert_eq!(c.getValue(), Some("five".to_string()));
    assert_eq!(c.getMemory(), 10);
    let z: Entry<String> = Entry::new0();
    assert_eq!(z.key, 0);
    assert_eq!(z.getValue(), None);
    assert_eq!(z.getMemory(), 0);
}

#[test]
fn segment_map_len() {
    let small: Segment<i64> = Segment::new5(10, 32, 8, 3, 12);
    assert_eq!(small.getNewMapLen(), 0);
    let large: Segment<i64> = Segment::new5(10, 32, 64, 3, 12);
    assert_eq!(large.getNewMapLen(), 32);
    let mut seg: Segment<i64> = Segment::new5(10, 32, 8, 3, 12);
    assert_eq!(seg.find(7, getHash(7)), None);
    assert_eq!(seg.get(None), None);
    let copy = Segment::new2(&seg, 16);
    assert_eq!(copy.getNewMapLen(), 0);
}

#[test]
fn cache_default_item_size() {
    let config = CacheLongKeyLIRSConfig::new();
    let cache: CacheLongKeyLIRS<i64> = CacheLongKeyLIRS::new(&config);
    assert_eq!(cache.get_max_item_size(), 1);
    let mut config = CacheLongKeyLIRSConfig::new();
    config.max_memory = 16 * 1024 * 1024;
    let cache: CacheLongKeyLIRS<i64> = CacheLongKeyLIRS::new(&config);
    assert_eq!(cache.get_max_item_size(), 1024 * 1024);
}

#[test]
fn cache_put_then_get() {
    let mut config = CacheLongKeyLIRSConfig::new();
    config.max_memory = 1600;
    let mut cache: CacheLongKeyLIRS<String> = CacheLongKeyLIRS::new(&config);
    assert!(cache.put(65536, Some("a".to_string()), 10).is_ok());
    assert!(cache.put(123456789, Some("b".to_string()), 10).is_ok());
    assert_eq!(cache.get(65536), Some("a".to_string()));
    assert_eq!(cache.get(123456789), Some("b".to_string()));
    assert_eq!(cache.get(42), None);
    assert!(cache.put(65536, Some("c".to_string()), 10).is_ok());
    assert_eq!(cache.get(65536), Some("c".to_string()));
}

#[test]
fn cache_refuses_missing_value() {
    let config = CacheLongKeyLIRSConfig::new();
    let mut cache: CacheLongKeyLIRS<i64> = CacheLongKeyLIRS::new(&config);
    let e = cache.put(1, None, 1).err().unwrap();
    assert_eq!(e.error_code, error_code::GENERAL_ERROR_1);
    assert_eq!(e.params, vec!["The value may not be null".to_string()]);
}

#[test]
fn cache_too_big_entry_is_not_kept() {
    let mut config = CacheLongKeyLIRSConfig::new();
    config.max_memory = 160;
    let mut cache: CacheLongKeyLIRS<i64> = CacheLongKeyLIRS::new(&config);
    assert!(cache.put(3, Some(30), 11).is_ok());
    assert_eq!(cache.get(3), None);
    assert!(cache.put(3, Some(30), 10).is_ok());
    assert_eq!(cache.get(3), Some(30));
}

#[test]
fn cache_evicts_the_oldest_cold_entry() {
    let mut config = CacheLongKeyLIRSConfig::new();
    config.max_memory = 20;
    config.segment_count = 2;
    let mut cache: CacheLongKeyLIRS<i64> = CacheLongKeyLIRS::new(&config);
    assert_eq!(cache.get_max_item_size(), 10);
    assert!(cache.put(1, Some(100), 4).is_ok());
    assert!(cache.put(2, Some(200), 4).is_ok());
    assert!(cache.put(3, Some(300), 4).is_ok());
    assert_eq!(cache.get(1), None);
    assert_eq!(cache.get(2), Some(200));
    assert_eq!(cache.get(3), Some(300));
}

#[test]
fn cache_stays_within_its_memory() {
    let mut config = CacheLongKeyLIRSConfig::new();
    config.max_memory = 20;
    config.segment_count = 2;
    let mut cache: CacheLongKeyLIRS<i64> = CacheLongKeyLIRS::new(&config);
    for k in 1..=50i64 {
        assert!(cache.put(k, Some(k * 10), 3).is_ok());
    }
    assert_eq!(cache.get(50), Some(500));
    let mut resident = 0;
    for k in 1..=50i64 {
        if cache.get(k).is_some() {
            resident += 1;
        }
    }
    assert!(resident >= 1);
    assert!(resident <= 6);
}

#[test]
fn cache_max_memory_per_segment() {
    let mut config = CacheLongKeyLIRSConfig::new();
    config.max_memory = 20;
    config.segment_count = 2;
    let mut cache: CacheLongKeyLIRS<i64> = CacheLongKeyLIRS::new(&config);
    cache.setMaxMemory(7);
    assert!(cache.put(1, Some(100), 4).is_ok());
    assert!(cache.put(2, Some(200), 5).is_ok());
    assert_eq!(cache.get(2), None);
    assert!(cache.put(2, Some(200), 4).is_ok());
    assert_eq!(cache.get(2), Some(200));
}

#[test]
fn string_data_type_compare() {
    let t = StringDataType {};
    assert_eq!(t.compare(&s("a"), &s("b")), Ordering::Less);
    assert_eq!(t.compare(&s("b"), &s("a")), Ordering::Greater);
    assert_eq!(t.compare(&s("ab"), &s("ab")), Ordering::Equal);
    assert_eq!(t.compare(&s("a"), &s("ab")), Ordering::Less);
    assert_eq!(t.get_memory(&s("abc")), 30);
    assert_eq!(t.get_memory(&s("")), 24);
}

#[test]
fn string_data_type_binary_search() {
    let t = StringDataType {};
    let storage = vec![s("a"), s("c"), s("e")];
    assert_eq!(t.binary_search(&s("c"), &storage, 3, 0), 1);
    assert_eq!(t.binary_search(&s("a"), &storage, 3, 1), 0);
    assert_eq!(t.binary_search(&s("d"), &storage, 3, 0), -3);
    assert_eq!(t.binary_search(&s("0"), &storage, 3, 0), -1);
    assert_eq!(t.binary_search(&s("z"), &storage, 3, 2), -4);
    assert_eq!(t.create_storage(4).len(), 0);
}

#[test]
fn h2_rust_type_values() {
    assert!(H2RustType::Null.isNull());
    assert!(!s("x").isNull());
    assert_eq!(s("x").toString(), Some("x".to_string()));
    assert_eq!(H2RustType::Null.toString(), None);
    assert_eq!(s("y").castAsStringRef(), "y");
}

#[test]
fn map_keys() {
    assert_eq!(getMapRootKey(10), "root.a");
    assert_eq!(getMapRootKey(0), "root.0");
    assert_eq!(getMapKey(255), "map.ff");
    assert_eq!(getMapKey(-1), "map.ffffffff");
}

#[test]
fn clean_up_after_compaction() {
    let steps = compact_clean_up("/d/x.mv.db", true, true, false);
    assert_eq!(steps.len(), 2);
    match &steps[0] {
        CleanUpAction::Delete(f) => assert_eq!(f, "/d/x.mv.db.tempFile"),
        _ => panic!("delete expected"),
    }
    match &steps[1] {
        CleanUpAction::Move(f, t) => {
            assert_eq!(f, "/d/x.mv.db.newFile");
            assert_eq!(t, "/d/x.mv.db");
        }
        _ => panic!("move expected"),
    }
    let steps = compact_clean_up("/d/x.mv.db", false, true, true);
    assert_eq!(steps.len(), 1);
    match &steps[0] {
        CleanUpAction::Delete(f) => assert_eq!(f, "/d/x.mv.db.newFile"),
        _ => panic!("delete expected"),
    }
    assert!(compact_clean_up("/d/x.mv.db", false, false, true).is_empty());
}

#[test]
fn file_store_open_and_lock() {
    let mut f = FileStore::new();
    let e = f.open("/none/x", false, false, false, false).err().unwrap();
    assert_eq!(e.error_code, error_code::GENERAL_ERROR_1);
    let mut f = FileStore::new();
    match f.open("/d/x", false, true, true, false).ok().unwrap() {
        OpenAction::Open { read_only } => assert!(read_only),
        OpenAction::AlreadyOpen => panic!("not open yet"),
    }
    let mut f = FileStore::new();
    match f.open("/d/x", false, true, true, true).ok().unwrap() {
        OpenAction::Open { read_only } => assert!(!read_only),
        OpenAction::AlreadyOpen => panic!("not open yet"),
    }
    assert!(f.opened(OpenOutcome::Opened { size: 8192 }).is_ok());
    assert!(f.open);
    assert!(f.locked);
    assert_eq!(f.size(), 8192);
    match f.open("/d/x", false, true, true, true).ok().unwrap() {
        OpenAction::AlreadyOpen => {}
        OpenAction::Open { .. } => panic!("open already"),
    }
    let mut g = FileStore::new();
    let _ = g.open("/d/y", false, true, false, true);
    let e = g.opened(OpenOutcome::LockFailed("busy".to_string())).err().unwrap();
    assert_eq!(e.params, vec!["try lock file failed,cause: busy".to_string()]);
    assert!(!g.open);
}

#[test]
fn store_with_file() {
    let mut b = MVStoreBuilder::new();
    b.fileName("/d/x.mv.db");
    b.auto_commit_disabled();
    let mut store = b.open(Some(8 * 1024 * 1024 * 1024));
    assert_eq!(store.file_name, Some("/d/x.mv.db".to_string()));
    assert!(store.file_store.is_some());
    assert_eq!(store.page_split_size, 16384);
    assert_eq!(store.keys_per_page, 48);
    assert_eq!(store.retention_time, 45000);
    assert_eq!(store.auto_compact_fill_rate, 90);
    assert!(!store.read_only);
    assert_eq!(store.page_cache.as_ref().unwrap().get_max_item_size(), 1024 * 1024);
    assert_eq!(store.chunk_cache.as_ref().unwrap().get_max_item_size(), 65536);
    {
        let layout = store.layout.as_ref().unwrap();
        assert_eq!(layout.getId(), 0);
        assert_eq!(layout.getRootReference().as_ref().unwrap().version, 0);
        assert_eq!(layout.getRootPage().memory, PAGE_LEAF_MEMORY);
    }
    store.file_opened(0, 1234);
    {
        let layout = store.layout.as_ref().unwrap();
        assert_eq!(layout.getRootReference().as_ref().unwrap().version, -1);
        assert_eq!(layout.getRootPage().memory, 0);
        assert!(layout.getRootPage().keys.is_empty());
    }
    assert_eq!(store.creation_time, 1234);
    let header = store.store_header.as_ref().unwrap();
    assert_eq!(header.block_size, BLOCK_SIZE);
    assert_eq!(header.created, 1234);
    assert_eq!(store.get_current_version(), 0);
}

#[test]
fn store_in_memory() {
    let mut b = MVStoreBuilder::new();
    b.page_split_size(100);
    let store = b.open(None);
    assert!(store.file_name.is_none());
    assert!(store.file_store.is_none());
    assert!(store.page_cache.is_none());
    assert!(store.chunk_cache.is_none());
    assert_eq!(store.page_split_size, 100);
    assert_eq!(store.getOldestVersionToKeep(), -1);
}

fn leaf_bytes(check: u8, len: u8, map_id: u8, node_type: u8) -> Vec<u8> {
    vec![0, 0, 0, len, 0, check, 0, map_id, 2, node_type]
}

#[test]
fn read_leaf_page() {
    let mut b = wrapVec(leaf_bytes(10, 10, 5, 0));
    let p = readFromByteBuffer(&mut b, 0, 5).ok().unwrap();
    assert_eq!(p.page_no, 0);
    assert_eq!(p.map_id, 5);
    assert_eq!(p.disk_space_used, 10);
    assert_eq!(p.memory, 1);
    assert_eq!(p.keys.len(), 2);
    assert_eq!(p.keys[0].castAsStringRef(), "");
    match &p.content {
        PageContent::Leaf(values) => assert_eq!(values.len(), 2),
        PageContent::NonLeaf { .. } => panic!("a leaf"),
    }
    assert_eq!(b.getLimit(), 10);
    assert_eq!(p.getValue(1).castAsStringRef(), "");
    assert!(p.getValue(2).isNull());
}

#[test]
fn read_non_leaf_page() {
    let bytes = vec![0, 0, 0, 19, 0, 19, 0, 5, 1, 1, 0, 0, 0, 0, 0, 0, 0, 7, 3];
    let mut b = wrapVec(bytes);
    let p = readFromByteBuffer(&mut b, 1, 5).ok().unwrap();
    assert_eq!(p.keys.len(), 1);
    match &p.content {
        PageContent::NonLeaf { children, total_count } => {
            assert_eq!(children.len(), 1);
            assert_eq!(children[0].position, 7);
            assert_eq!(children[0].count, 3);
            assert_eq!(*total_count, 3);
        }
        PageContent::Leaf(_) => panic!("not a leaf"),
    }
    let bad = vec![0, 0, 0, 19, 0, 19, 0, 5, 1, 1, 0, 0, 0, 0, 0, 0, 0, 0, 3];
    let e = readFromByteBuffer(&mut wrapVec(bad), 1, 5).err().unwrap();
    assert_eq!(e.params, vec!["file corrupted in chunk 0, page cut short or malformed".to_string()]);
}

#[test]
fn read_corrupt_pages() {
    let e = readFromByteBuffer(&mut wrapVec(leaf_bytes(10, 10, 5, 0)), 0, 6).err().unwrap();
    assert_eq!(e.error_code, error_code::FILE_CORRUPTED_1);
    assert_eq!(e.params, vec!["file corrupted in chunk 0, expected map id 6, got 5".to_string()]);
    let e = readFromByteBuffer(&mut wrapVec(leaf_bytes(11, 10, 5, 0)), 0, 5).err().unwrap();
    assert_eq!(e.params, vec!["file corrupted in chunk 0, expected check value 10, got 11".to_string()]);
    let e = readFromByteBuffer(&mut wrapVec(leaf_bytes(100, 100, 5, 0)), 0, 5).err().unwrap();
    assert_eq!(e.params, vec!["file corrupted in chunk 0, expected page length 4..10, got 100".to_string()]);
    let e = readFromByteBuffer(&mut wrapVec(leaf_bytes(10, 10, 5, 1)), 0, 5).err().unwrap();
    assert_eq!(e.params, vec!["file corrupted in chunk 0, expected node type 0, got 1".to_string()]);
    let e = readFromByteBuffer(&mut wrapVec(vec![0, 0]), 0, 5).err().unwrap();
    assert_eq!(e.params, vec!["file corrupted in chunk 0, page cut short or malformed".to_string()]);
}

#[test]
fn page_memory_and_search() {
    let leaf = Page::createEmptyLeaf(3, true);
    assert_eq!(leaf.get_memory(), PAGE_LEAF_MEMORY);
    assert_eq!(PAGE_LEAF_MEMORY, 113);
    let in_memory = Page::createEmptyLeaf(3, false);
    assert!(!in_memory.is_persistent());
    assert_eq!(in_memory.get_memory(), 0);
    let mut p = Page::createLeaf(3, true, vec![s("b"), s("d")], vec![s("x"), s("y")], 0);
    assert_eq!(p.memory, 1);
    assert_eq!(p.binarySearch(&s("d")), 1);
    assert_eq!(p.cached_compare, 2);
    assert_eq!(p.binarySearch(&s("c")), -2);
    assert_eq!(p.cached_compare, 1);
    assert_eq!(p.getKeyCount(), 2);
    assert_eq!(createRefStorage(4).len(), 0);
    let r = PageReference::new2(9, 4);
    assert_eq!((r.position, r.count), (9, 4));
    let z = PageReference::empty();
    assert_eq!((z.position, z.count), (0, 0));
}

#[test]
fn where_a_page_is_read() {
    let mut c = Chunk::new("chunk:1,block:2").ok().unwrap();
    c.block_count = 3;
    match c.readBufferForPage(100, 0, None).ok().unwrap() {
        PageReadStep::Read { position_in_file, length } => {
            assert_eq!(position_in_file, 8292);
            assert_eq!(length, 32);
        }
        PageReadStep::ReadLength { .. } => panic!("small page"),
    }
    match c.readBufferForPage(100, 62, None).ok().unwrap() {
        PageReadStep::ReadLength { position_in_file } => assert_eq!(position_in_file, 8292),
        PageReadStep::Read { .. } => panic!("large page"),
    }
    match c.readBufferForPage(100, 62, Some(5000)).ok().unwrap() {
        PageReadStep::Read { position_in_file, length } => {
            assert_eq!(position_in_file, 8292);
            assert_eq!(length, 5004);
        }
        PageReadStep::ReadLength { .. } => panic!("length known"),
    }
    match c.readBufferForPage(12280, 62, Some(5000)).ok().unwrap() {
        PageReadStep::Read { length, .. } => assert_eq!(length, 8),
        PageReadStep::ReadLength { .. } => panic!("length known"),
    }
    let e = c.readBufferForPage(-10000, 0, None).err().unwrap();
    assert_eq!(e.params, vec!["negative positionInFile:-1808; position:0".to_string()]);
    let e = c.readBufferForPage(20000, 0, None).err().unwrap();
    assert_eq!(e.params, vec!["illegal page length -7712 reading at 28192; max pos 20480 ".to_string()]);
}

#[test]
fn store_pages_and_chunks() {
    let mut b = MVStoreBuilder::new();
    b.fileName("/d/x.mv.db");
    let mut store = b.open(None);
    let e = store.readPage(0).err().unwrap();
    assert_eq!(e.error_code, error_code::GENERAL_ERROR_1);
    assert_eq!(e.params, vec!["ERROR_FILE_CORRUPT,Position 0".to_string()]);
    let position: i64 = (1i64 << 38) | (2 << 6);
    assert!(store.readPage(position).ok().unwrap().is_none());
    let mut page = Page::createLeaf(1, true, vec![s("k")], vec![s("v")], 10);
    page.position = position;
    assert!(store.cachePage(page).is_ok());
    let got = store.readPage(position).ok().unwrap().unwrap();
    assert_eq!(got.position, position);
    assert_eq!(got.memory, 10);
    assert!(store.get_chunk(position).ok().unwrap().is_none());
    let e = store.add_chunk(1, &H2RustType::Null).err().unwrap();
    assert_eq!(e.error_code, error_code::GENERAL_ERROR_1);
    assert_eq!(e.params, vec!["Chunk 1 not found".to_string()]);
    let e = store.add_chunk(1, &s("chunk:1,block:7fffffffffffffff")).err().unwrap();
    assert_eq!(e.error_code, error_code::FILE_CORRUPTED_1);
    assert_eq!(e.params, vec!["chunk 1 is invalid".to_string()]);
    assert!(store.add_chunk(1, &s("chunk:1,block:2")).is_ok());
    assert_eq!(store.get_chunk(position).ok().unwrap().unwrap().block, 2);
    assert!(store.add_chunk(1, &s("chunk:1,block:3")).is_ok());
    assert_eq!(store.chunks.len(), 1);
    assert_eq!(store.get_chunk(position).ok().unwrap().unwrap().block, 3);
    assert!(store.add_chunk(2, &s("chunk:2,block:4")).is_ok());
    assert_eq!(store.chunks.len(), 2);
    assert!(store.check_open().is_ok());
    store.state = 2;
    let e = store.check_open().err().unwrap();
    assert_eq!(e.error_code, error_code::DATABASE_IS_CLOSED);
    assert!(store.get_chunk(position).ok().unwrap().is_some());
    assert!(store.get_chunk(5i64 << 38).is_err());
}

#[test]
fn cache_segment_grows_and_keeps_its_entries() {
    let mut config = CacheLongKeyLIRSConfig::new();
    config.max_memory = 2000;
    config.segment_count = 2;
    let mut cache: CacheLongKeyLIRS<i64> = CacheLongKeyLIRS::new(&config);
    for k in 1..=20i64 {
        assert!(cache.put(k, Some(k * 10), 1).is_ok());
    }
    for k in 1..=20i64 {
        assert_eq!(cache.get(k), Some(k * 10));
    }
}

#[test]
fn segment_copy_keeps_entries() {
    let mut config = CacheLongKeyLIRSConfig::new();
    config.max_memory = 2000;
    config.segment_count = 2;
    let mut cache: CacheLongKeyLIRS<String> = CacheLongKeyLIRS::new(&config);
    for k in 1..=9i64 {
        assert!(cache.put(k, Some(format!("v{}", k)), 1).is_ok());
    }
    assert_eq!(cache.get(9), Some("v9".to_string()));
    assert_eq!(cache.get(1), Some("v1".to_string()));
}

fn value_of(step: GetStep) -> H2RustType {
    match step {
        GetStep::Value(v) => v,
        GetStep::Child(_) => panic!("a leaf has no children"),
    }
}

fn child_of(step: GetStep) -> i32 {
    match step {
        GetStep::Child(c) => c,
        GetStep::Value(_) => panic!("a non-leaf page has no values"),
    }
}

#[test]
fn lookup_steps_in_pages() {
    let mut leaf = Page::createLeaf(1, true, vec![s("b"), s("d")], vec![s("x"), s("y")], 0);
    assert_eq!(value_of(get(&mut leaf, &s("d"))).castAsStringRef(), "y");
    assert_eq!(value_of(get(&mut leaf, &s("b"))).castAsStringRef(), "x");
    assert!(value_of(get(&mut leaf, &s("c"))).isNull());
    assert!(value_of(get(&mut leaf, &s("a"))).isNull());
    let mut node = Page::createLeaf(1, true, vec![s("b"), s("d")], vec![], 0);
    node.content = PageContent::NonLeaf {
        children: vec![PageReference::new2(10, 1), PageReference::new2(20, 2), PageReference::new2(30, 3)],
        total_count: 6,
    };
    assert_eq!(child_of(get(&mut node, &s("a"))), 0);
    assert_eq!(child_of(get(&mut node, &s("b"))), 1);
    assert_eq!(child_of(get(&mut node, &s("c"))), 1);
    assert_eq!(child_of(get(&mut node, &s("d"))), 2);
    assert_eq!(child_of(get(&mut node, &s("e"))), 2);
    assert_eq!(node.getChildPage(2).position, 30);
    assert_eq!(node.getChildPage(1).count, 2);
}

#[test]
fn copying_a_leaf() {
    let mut leaf = Page::createLeaf(1, true, vec![s("b")], vec![s("x")], 40);
    leaf.position = 99;
    let copy = leaf.copy(7);
    assert_eq!(copy.map_id, 7);
    assert_eq!(copy.memory, 0);
    assert!(copy.keys.is_empty());
    assert_eq!(copy.position, 0);
    assert_eq!(copy.page_no, 0);
    assert_eq!(copy.getValue(0).castAsStringRef(), "x");
    assert!(copy.getValue(1).isNull());
}

#[test]
fn root_references() {
    let r = RootReference::new(Page::createEmptyLeaf(2, true), 5);
    assert_eq!(r.getVersion(), 5);
    assert_eq!(r.update_counter, 1);
    assert_eq!(r.update_attempt_counter, 1);
    assert!(!r.isLockedByCurrentThread(0));
    assert!(!r.isLockedByCurrentThread(3));
}

#[test]
fn maps_of_a_store() {
    let mut b = MVStoreBuilder::new();
    b.fileName("/d/x.mv.db");
    let mut store = b.open(None);
    store.file_opened(0, 1);
    let mut map = MVMap::new(&store, 4, StringDataType {}, StringDataType {}).ok().unwrap();
    assert_eq!(map.getId(), 4);
    assert!(map.is_persistent());
    assert_eq!(map.keys_per_page, 48);
    assert_eq!(map.avg_key_size, Some(0));
    assert!(map.keys_buffer.is_none());
    assert_eq!(map.getRootPage().memory, PAGE_LEAF_MEMORY);
    assert_eq!(map.getRootPage().map_id, 4);
    assert_eq!(map.getRootReference().as_ref().unwrap().version, 0);
    assert_eq!(map.setWriteVersion(0).version, 0);
    assert!(value_of(map.get(&s("k"))).isNull());
    let root = map.readOrCreateRootPage(0, &mut store).ok().unwrap().unwrap();
    assert_eq!(root.map_id, 4);
    assert!(map.readOrCreateRootPage(1i64 << 38, &mut store).ok().unwrap().is_none());
    let e = map.readPage(&mut store, 0).err().unwrap();
    assert_eq!(e.error_code, error_code::GENERAL_ERROR_1);
    let other = Page::createLeaf(9, true, vec![s("a")], vec![s("b")], 0);
    map.setRootPosition(other, 3, &store);
    assert_eq!(map.getRootReference().as_ref().unwrap().version, 0);
    let mine = Page::createLeaf(4, true, vec![s("a")], vec![s("b")], 0);
    map.setRootPosition(mine, 3, &store);
    assert_eq!(map.getRootReference().as_ref().unwrap().getVersion(), 3);
    assert_eq!(map.getRootPage().getValue(0).castAsStringRef(), "b");
    assert!(map.getRootPage().keys.is_empty());
    map.read_only = true;
    let e = map.beforeWrite().err().unwrap();
    assert_eq!(e.error_code, error_code::GENERAL_ERROR_1);
    assert_eq!(e.params, vec!["this map is read only".to_string()]);
    map.closed = true;
    let e = map.beforeWrite().err().unwrap();
    assert_eq!(e.error_code, error_code::DATABASE_IS_CLOSED);
}
