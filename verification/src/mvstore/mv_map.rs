use vstd::prelude::*;
use crate::api::error_code;
use crate::h2_rust_common::h2_rust_type::H2RustType;
use crate::message::db_error::{is_error, one_param, DbError};
use crate::mvstore::data_utils::{META_MAP, META_ROOT};
use crate::mvstore::mv_store::{page_read_outcome, MVStore};
use crate::mvstore::page::{get, get_step_of, GetStep, Page, PageContent, PAGE_LEAF_MEMORY, IN_MEMORY};
use crate::mvstore::root_reference::RootReference;
use crate::mvstore::types::string_data_type::{sorted_strings, StringDataType};
use crate::util::chars::str_concat;
use crate::util::numfmt::{hex_of, i32_to_hex};

verus! {

/// The key under which the layout map keeps the root of map `mapId`: `root.`
/// and the id in lower case hexadecimal (the 32 bits of a negative id).
pub fn getMapRootKey(mapId: i32) -> (r: String)
    ensures
        r@ == META_ROOT@ + hex_of((mapId as u32) as nat),
{
    let hex = i32_to_hex(mapId);
    str_concat(META_ROOT, hex.as_str())
}

/// The key under which the meta map keeps the metadata of map `mapId`: `map.`
/// and the id in lower case hexadecimal (the 32 bits of a negative id).
pub fn getMapKey(mapId: i32) -> (r: String)
    ensures
        r@ == META_MAP@ + hex_of((mapId as u32) as nat),
{
    let hex = i32_to_hex(mapId);
    str_concat(META_MAP, hex.as_str())
}

/// What a decision maker decides for an entry of a map.
pub enum Decision {
    ABORT,
    REMOVE,
    PUT,
    REPEAT,
}

/// What decides, for an entry of a map, what an update does with it.
pub trait DecisionMaker {}

/// A map of a store, from string keys to string values: whether it belongs
/// to a store, its id, the version it was created in, the key and value
/// buffers of a single writer, its key and value types, its current root,
/// the average key and value sizes seen so far, the keys per page, and
/// whether it is volatile, read-only and closed.
pub struct MVMap {
    pub has_store: bool,
    pub id: i32,
    pub create_version: i64,
    pub keys_buffer: Option<Vec<H2RustType>>,
    pub values_buffer: Option<Vec<H2RustType>>,
    pub key_type: StringDataType,
    pub value_type: StringDataType,
    pub single_writer: bool,
    pub root_reference: Option<RootReference>,
    pub avg_key_size: Option<i64>,
    pub avg_val_size: Option<i64>,
    pub keys_per_page: i32,
    pub is_volatile: bool,
    pub read_only: bool,
    pub closed: bool,
}

/// Whether `p` is the empty leaf that a map with id `id` starts from.
pub open spec fn is_empty_root(p: Page, id: i32, persistent: bool) -> bool {
    &&& p.map_id == id
    &&& p.keys@.len() == 0
    &&& p.content matches PageContent::Leaf(v) && v@.len() == 0
    &&& p.memory == (if persistent {
        PAGE_LEAF_MEMORY
    } else {
        IN_MEMORY
    })
}

impl MVMap {
    /// The map `id` of `store`, with these key and value types: created at
    /// version 0, with the store's keys per page and no single writer, and an
    /// empty leaf as its root at the store's current version.
    pub fn new(store: &MVStore, id: i32, key_type: StringDataType, value_type: StringDataType) -> (r: Result<
        MVMap,
        DbError,
    >)
        ensures
            r matches Ok(m) && {
                &&& m.has_store && !m.is_volatile && !m.read_only && !m.closed
                &&& m.id == id && m.create_version == 0 && m.keys_per_page == store.keys_per_page
                &&& !m.single_writer && m.keys_buffer is None && m.values_buffer is None
                &&& m.avg_key_size == Some(0i64) && m.avg_val_size == Some(0i64)
                &&& m.root_reference matches Some(rr) && rr.version == store.current_version && is_empty_root(
                    rr.root,
                    id,
                    true,
                )
            },
    {
        let keys_per_page = store.keys_per_page;
        let mut map = Self::new1(true, key_type, value_type, id, 0, None, keys_per_page, false)?;
        let root = map.createEmptyLeaf();
        map.setInitialRoot(root, store.get_current_version());
        Ok(map)
    }

    /// A map with these parts and no root where `root_reference` is none;
    /// a single writer gets empty key and value buffers with room for a
    /// page, and sizes are averaged for types that allow it.
    fn new1(
        has_store: bool,
        key_type: StringDataType,
        value_type: StringDataType,
        id: i32,
        create_version: i64,
        root_reference: Option<RootReference>,
        keys_per_page: i32,
        single_writer: bool,
    ) -> (r: Result<MVMap, DbError>)
        requires
            single_writer ==> keys_per_page >= 0,
        ensures
            r matches Ok(m) && {
                &&& m.has_store == has_store && !m.is_volatile && !m.read_only && !m.closed
                &&& m.id == id && m.create_version == create_version && m.keys_per_page == keys_per_page
                &&& m.root_reference == root_reference && m.single_writer == single_writer
                &&& single_writer ==> (m.keys_buffer matches Some(b) && b@.len() == 0)
                    && (m.values_buffer matches Some(b) && b@.len() == 0)
                &&& !single_writer ==> m.keys_buffer is None && m.values_buffer is None
                &&& m.avg_key_size == Some(0i64) && m.avg_val_size == Some(0i64)
            },
    {
        let mut map = MVMap {
            has_store,
            id,
            create_version,
            keys_buffer: None,
            values_buffer: None,
            key_type,
            value_type,
            single_writer,
            root_reference,
            avg_key_size: None,
            avg_val_size: None,
            keys_per_page,
            is_volatile: false,
            read_only: false,
            closed: false,
        };
        if single_writer {
            map.keys_buffer = Some(map.key_type.create_storage(keys_per_page));
            map.values_buffer = Some(map.value_type.create_storage(keys_per_page));
        }
        if map.key_type.is_memory_estimation_allowed() {
            map.avg_key_size = Some(0);
        }
        if map.value_type.is_memory_estimation_allowed() {
            map.avg_val_size = Some(0);
        }
        Ok(map)
    }

    /// An empty leaf of this map.
    pub(crate) fn createEmptyLeaf(&self) -> (p: Page)
        ensures
            is_empty_root(p, self.id, self.has_store && !self.is_volatile),
    {
        Page::createEmptyLeaf(self.id, self.is_persistent())
    }

    /// Whether the map is kept in its store: it belongs to one and is not
    /// volatile.
    pub fn is_persistent(&self) -> (r: bool)
        ensures
            r == (self.has_store && !self.is_volatile),
    {
        self.has_store && !self.is_volatile
    }

    /// Makes `root_page` the root at `version`.
    fn setInitialRoot(&mut self, root_page: Page, version: i64)
        ensures
            *final(self) == (MVMap {
                root_reference: final(self).root_reference,
                ..*old(self)
            }),
            final(self).root_reference matches Some(rr) && rr.root == root_page && rr.version == version
                && rr.hold_count == 0 && rr.append_counter == 0,
    {
        self.setRootReference(RootReference::new(root_page, version));
    }

    /// Makes `root_reference` the current root.
    fn setRootReference(&mut self, root_reference: RootReference)
        ensures
            *final(self) == (MVMap { root_reference: Some(root_reference), ..*old(self) }),
    {
        self.root_reference = Some(root_reference);
    }

    /// Sets the root from the page at the map's root position: `root` is what
    /// `readOrCreateRootPage` gave for that position (read from its chunk where
    /// it gave nothing). A page of this map becomes, copied, the root at
    /// `version`, which the store's current version must not exceed; a page of
    /// another map changes nothing.
    pub fn setRootPosition(&mut self, root: Page, version: i64, store: &MVStore)
        requires
            root.map_id == old(self).id ==> root.content is Leaf && version >= store.current_version,
        ensures
            root.map_id != old(self).id ==> *final(self) == *old(self),
            root.map_id == old(self).id ==> *final(self) == (MVMap {
                root_reference: final(self).root_reference,
                ..*old(self)
            }),
            root.map_id == old(self).id ==> (final(self).root_reference matches Some(rr) && rr.version == version
                && rr.root.map_id == old(self).id && rr.root.keys@.len() == 0 && rr.root.memory == 0
                && rr.root.position == 0 && rr.root.content is Leaf && rr.root.content->Leaf_0@
                == root.content->Leaf_0@),
    {
        if root.map_id == self.id {
            self.take_root_copy(root, version);
            let _ = self.setWriteVersion(store.get_current_version());
        }
    }

    /// Makes a copy of the leaf `root` the root at `version`: what
    /// `setRootPosition` does with a page of this map before it waits for
    /// the root to reach the store's version.
    pub fn take_root_copy(&mut self, root: Page, version: i64)
        requires
            root.content is Leaf,
        ensures
            *final(self) == (MVMap { root_reference: final(self).root_reference, ..*old(self) }),
            final(self).root_reference matches Some(rr) && rr.version == version && rr.root.map_id == old(self).id
                && rr.root.keys@.len() == 0 && rr.root.memory == 0 && rr.root.position == 0 && rr.root.page_no == 0
                && rr.root.cached_compare == 0 && rr.root.disk_space_used == 0 && rr.root.content is Leaf
                && rr.root.content->Leaf_0@ == root.content->Leaf_0@,
    {
        let copied = root.copy(self.id);
        self.setInitialRoot(copied, version);
    }

    /// The root page at `root_position`: a new empty leaf for position 0,
    /// else the page as the store reads it (nothing where it must be read
    /// from its chunk).
    pub fn readOrCreateRootPage(&self, root_position: i64, store: &mut MVStore) -> (r: Result<Option<Page>, DbError>)
        requires
            old(store).page_cache matches Some(c) ==> c@.wf(),
        ensures
            final(store).page_cache matches Some(c) ==> c@.wf(),
            root_position == 0 ==> (r matches Ok(Some(p)) && is_empty_root(p, self.id, self.has_store && !self.is_volatile)),
            root_position != 0 ==> page_read_outcome(old(store).page_cache, root_position, r),
            root_position == 0 ==> *final(store) == *old(store),
    {
        if root_position == 0 {
            Ok(Some(self.createEmptyLeaf()))
        } else {
            self.readPage(store, root_position)
        }
    }

    /// The page of this map at `position`, as the store reads it.
    pub fn readPage(&self, store: &mut MVStore, position: i64) -> (r: Result<Option<Page>, DbError>)
        requires
            old(store).page_cache matches Some(c) ==> c@.wf(),
        ensures
            final(store).page_cache matches Some(c) ==> c@.wf(),
            page_read_outcome(old(store).page_cache, position, r),
    {
        store.readPage(position)
    }

    /// One step of a lookup of `key` from the root page; see `page::get`.
    pub fn get(&mut self, key: &H2RustType) -> (r: GetStep)
        requires
            key is String,
            old(self).root_reference matches Some(rr) && rr.root.keys@.len() < i32::MAX && sorted_strings(
                rr.root.keys@,
                rr.root.keys@.len() as i32,
            ),
        ensures
            get_step_of(
                old(self).root_reference->0.root.keys@,
                old(self).root_reference->0.root.content,
                *key,
                r,
            ),
            *final(self) == (MVMap { root_reference: final(self).root_reference, ..*old(self) }),
            final(self).root_reference matches Some(rr) && rr == (RootReference {
                root: Page { cached_compare: rr.root.cached_compare, ..old(self).root_reference->0.root },
                ..old(self).root_reference->0
            }),
    {
        match &mut self.root_reference {
            Some(rr) => get(&mut rr.root, key),
            None => GetStep::Value(H2RustType::Null),
        }
    }

    /// One step of a lookup of `key` from the page `page`; see `page::get`.
    pub fn get2(&self, page: &mut Page, key: &H2RustType) -> (r: GetStep)
        requires
            key is String,
            old(page).keys@.len() < i32::MAX,
            sorted_strings(old(page).keys@, old(page).keys@.len() as i32),
        ensures
            get_step_of(old(page).keys@, old(page).content, *key, r),
            *final(page) == (Page { cached_compare: final(page).cached_compare, ..*old(page) }),
    {
        get(page, key)
    }

    /// The current root page.
    pub fn getRootPage(&self) -> (r: &Page)
        requires
            self.root_reference is Some,
        ensures
            *r == self.root_reference->0.root,
    {
        &self.flushAndGetRootReference().as_ref().unwrap().root
    }

    /// The current root, after what a single writer appended is flushed; no
    /// map here appends.
    pub fn flushAndGetRootReference(&self) -> (r: &Option<RootReference>)
        ensures
            *r == self.root_reference,
    {
        self.getRootReference()
    }

    /// The current root.
    pub fn getRootReference(&self) -> (r: &Option<RootReference>)
        ensures
            *r == self.root_reference,
    {
        &self.root_reference
    }

    /// The type of the keys.
    pub fn getKeyType(&self) -> (r: &StringDataType)
        ensures
            *r == self.key_type,
    {
        &self.key_type
    }

    /// The type of the values.
    pub fn getValueType(&self) -> (r: &StringDataType)
        ensures
            *r == self.value_type,
    {
        &self.value_type
    }

    /// The id of the map.
    pub fn getId(&self) -> (r: i32)
        ensures
            r == self.id,
    {
        self.id
    }

    /// The current root, once its version is at least `write_version`: the
    /// root of a map whose root is older is waited for.
    pub fn setWriteVersion(&self, write_version: i64) -> (r: &RootReference)
        requires
            self.root_reference matches Some(rr) && rr.version >= write_version,
        ensures
            Some(*r) == self.root_reference,
    {
        self.flushAndGetRootReference().as_ref().unwrap()
    }

    /// Checks that the map may be written to: a closed map fails with the
    /// error for a closed database, a read-only map with a general error.
    pub fn beforeWrite(&self) -> (r: Result<(), DbError>)
        requires
            self.closed || self.read_only,
        ensures
            self.closed ==> (r matches Err(e) && is_error(e, error_code::DATABASE_IS_CLOSED, Seq::empty())),
            !self.closed ==> (r matches Err(e) && is_error(
                e,
                error_code::GENERAL_ERROR_1,
                seq!["this map is read only"@],
            )),
    {
        if self.closed {
            let params: Vec<String> = Vec::new();
            proof {
                assert(params.deep_view() =~= Seq::<Seq<char>>::empty());
            }
            return Err(DbError::get(error_code::DATABASE_IS_CLOSED, params));
        }
        Err(DbError::get(error_code::GENERAL_ERROR_1, one_param("this map is read only")))
    }
}

} // verus!
