use vstd::prelude::*;
use vstd::arithmetic::power2::pow2;
use bit_set::BitSet;
use crate::api::error_code;
use crate::h2_rust_common::properties::Properties;
use crate::message::db_error::{DbError, is_error, one_param};
use crate::mvstore::data_utils::{bad_value, hex_long_of, parseMap, parsed_map, readHexInt, readHexIntOrLong};
use crate::util::chars::{str_concat, string_of};
use crate::util::numfmt::{decimal_of, hex_of, i32_to_decimal, i32_to_hex, i64_to_decimal, radix_chars};
use crate::mvstore::data_utils::{getPageMaxLength, pow2_of, PAGE_LARGE};
use crate::mvstore::mv_store::BLOCK_SIZE;
use crate::util::string_utils::{convert_hex_to_byte_vec, hex_decode_result};

verus! {

/// The pages of a chunk that are no longer live, held in a `bit_set::BitSet`.
#[verifier::external_body]
pub struct Occupancy {
    bits: BitSet,
}

/// The members of an occupancy set: the indices of its 1 bits.
pub uninterp spec fn occupancy_contents(o: Occupancy) -> Set<nat>;

/// The indices of the 1 bits of `bytes`, where each byte gives eight bits, its
/// most significant bit first.
pub open spec fn bits_of(bytes: Seq<u8>) -> Set<nat> {
    Set::new(
        |i: nat|
            i < 8 * bytes.len() && (bytes[(i / 8) as int] as nat / pow2((7 - i % 8) as nat)) % 2 == 1,
    )
}

/// Calls `bit_set::BitSet::new`, which creates an empty set.
#[verifier::external_body]
fn empty_occupancy() -> (o: Occupancy)
    ensures
        occupancy_contents(o) == Set::<nat>::empty(),
{
    Occupancy { bits: BitSet::new() }
}

/// Calls `bit_set::BitSet::from_bytes`. As the documentation of
/// `bit_vec::BitVec::from_bytes` says, each byte becomes eight bits, the most
/// significant bit first; the set holds the indices of the 1 bits.
#[verifier::external_body]
fn occupancy_from_bytes(bytes: &[u8]) -> (o: Occupancy)
    ensures
        occupancy_contents(o) == bits_of(bytes@),
{
    Occupancy { bits: BitSet::from_bytes(bytes) }
}

/// Calls `bit_set::BitSet::count`, which counts the members of the set.
#[verifier::external_body]
fn occupancy_count(o: &Occupancy) -> (n: usize)
    ensures
        n == occupancy_contents(*o).len(),
{
    o.bits.count()
}

/// The largest chunk id.
pub const MAX_ID: i32 = 67108863;

/// The longest chunk header, in bytes.
pub const MAX_HEADER_LENGTH: i32 = 1024;

/// The length of the chunk footer. The longest footer is:
///
/// chunk:ffffffff,block:ffffffffffffffff,
/// version:ffffffffffffffff,fletcher:ffffffff
pub const FOOTER_LENGTH: i32 = 128;

/// The view of a chunk.
pub struct ChunkView {
    pub id: i32,
    pub block: i64,
    pub version: i64,
    pub block_count: i32,
    pub page_count: i32,
    pub page_count_live: i32,
    pub map_id: i32,
    pub max_len: i64,
    pub max_len_live: i64,
    pub layout_root_pos: i64,
    pub time: i64,
    pub unused: i64,
    pub unused_at_version: i64,
    pub next: i64,
    pub pin_count: i32,
    pub toc_pos: i32,
    pub occupancy: Set<nat>,
}

/// A chunk of a store: its id, position, version and counts of pages, and
/// which of its pages are no longer live.
pub struct Chunk {
    pub id: i32,
    pub block: i64,
    pub version: i64,
    /// The number of blocks that the chunk takes.
    pub block_count: i32,
    pub page_count: i32,
    pub page_count_live: i32,
    pub map_id: i32,
    pub max_len: i64,
    pub max_len_live: i64,
    pub layout_root_pos: i64,
    pub time: i64,
    pub unused: i64,
    pub unused_at_version: i64,
    pub next: i64,
    pub pin_count: i32,
    pub toc_pos: i32,
    /// The pages of the chunk that are no longer live.
    pub occupancy: Occupancy,
}

impl Chunk {
    /// The view of the chunk.
    pub open spec fn view_of(&self) -> ChunkView {
        ChunkView {
            id: self.id,
            block: self.block,
            version: self.version,
            block_count: self.block_count,
            page_count: self.page_count,
            page_count_live: self.page_count_live,
            map_id: self.map_id,
            max_len: self.max_len,
            max_len_live: self.max_len_live,
            layout_root_pos: self.layout_root_pos,
            time: self.time,
            unused: self.unused,
            unused_at_version: self.unused_at_version,
            next: self.next,
            pin_count: self.pin_count,
            toc_pos: self.toc_pos,
            occupancy: occupancy_contents(self.occupancy),
        }
    }
}

/// Whether the hexadecimal number under `key` reads (or there is none).
pub open spec fn hex_reads(m: Map<Seq<char>, Seq<char>>, key: Seq<char>) -> bool {
    hex_long_of(m, key, 0) is Some
}

/// The hexadecimal number under `key` as an `i64`, or `d`.
pub open spec fn hex_long(m: Map<Seq<char>, Seq<char>>, key: Seq<char>, d: i64) -> i64 {
    hex_long_of(m, key, d)->0
}

/// The hexadecimal number under `key` as an `i32` (its low 32 bits), or `d`.
pub open spec fn hex_int(m: Map<Seq<char>, Seq<char>>, key: Seq<char>, d: i32) -> i32 {
    (hex_long_of(m, key, d as i64)->0) as i32
}

/// The attributes that a chunk reads after its id, in order: the block and
/// version, and for a full chunk the counts, sizes, positions and times.
pub open spec fn chunk_keys(full: bool) -> Seq<Seq<char>> {
    if full {
        seq![
            "block"@,
            "version"@,
            "len"@,
            "pages"@,
            "livePages"@,
            "map"@,
            "max"@,
            "liveMax"@,
            "root"@,
            "time"@,
            "unused"@,
            "unusedAtVersion"@,
            "next"@,
            "pinCount"@,
            "toc"@,
        ]
    } else {
        seq!["block"@, "version"@]
    }
}

/// The first of `keys` whose number does not read, if any.
pub open spec fn first_unread(m: Map<Seq<char>, Seq<char>>, keys: Seq<Seq<char>>) -> Option<Seq<char>>
    decreases keys.len(),
{
    if keys.len() == 0 {
        None
    } else if !hex_reads(m, keys[0]) {
        Some(keys[0])
    } else {
        first_unread(m, keys.drop_first())
    }
}

/// The message parameter of inconsistent occupancy.
pub open spec fn occupancy_error_param(page_count: i32, page_count_live: i32, cardinality: int) -> Seq<char> {
    "inconsistent occupancy info "@ + decimal_of(page_count as int) + " - "@ + decimal_of(page_count_live as int)
        + " != "@ + decimal_of(cardinality)
}

/// The chunk with id `id` that the attributes `m` give, where all of them
/// read: the block, the version (by default the id), and for a full chunk the
/// block count, page counts (live pages by default all pages), map id, sizes
/// (live size by default the size), root position, times, next position, pin
/// count and table of contents position, each by default 0.
pub open spec fn chunk_values(m: Map<Seq<char>, Seq<char>>, id: i32, full: bool) -> ChunkView {
    let page_count = if full {
        hex_int(m, "pages"@, 0)
    } else {
        0
    };
    let max_len = if full {
        hex_long(m, "max"@, 0)
    } else {
        0
    };
    ChunkView {
        id,
        block: hex_long(m, "block"@, 0),
        version: hex_long(m, "version"@, id as i64),
        block_count: if full {
            hex_int(m, "len"@, 0)
        } else {
            0
        },
        page_count,
        page_count_live: if full {
            hex_int(m, "livePages"@, page_count)
        } else {
            0
        },
        map_id: if full {
            hex_int(m, "map"@, 0)
        } else {
            0
        },
        max_len,
        max_len_live: if full {
            hex_long(m, "liveMax"@, max_len)
        } else {
            0
        },
        layout_root_pos: if full {
            hex_long(m, "root"@, 0)
        } else {
            0
        },
        time: if full {
            hex_long(m, "time"@, 0)
        } else {
            0
        },
        unused: if full {
            hex_long(m, "unused"@, 0)
        } else {
            0
        },
        unused_at_version: if full {
            hex_long(m, "unusedAtVersion"@, 0)
        } else {
            0
        },
        next: if full {
            hex_long(m, "next"@, 0)
        } else {
            0
        },
        pin_count: if full {
            hex_int(m, "pinCount"@, 0)
        } else {
            0
        },
        toc_pos: if full {
            hex_int(m, "toc"@, 0)
        } else {
            0
        },
        occupancy: Set::empty(),
    }
}

/// What reading a chunk from the attributes `m` gives. A number that does not
/// read is the error `FILE_CORRUPTED_1` (see `readHexIntOrLong`), the chunk id
/// first; an id that is not positive is the error `FILE_CORRUPTED_1`. A full
/// chunk reads its occupancy, a hexadecimal text of bytes whose 1 bits are the
/// pages that are no longer live; their number must be the number of pages
/// less the live ones, else it is the error `FILE_CORRUPTED_1`.
pub open spec fn chunk_outcome(m: Map<Seq<char>, Seq<char>>, full: bool) -> Result<ChunkView, (i32, Seq<Seq<char>>)> {
    if !hex_reads(m, "chunk"@) {
        Err(bad_value(m, "chunk"@))
    } else {
        let id = hex_int(m, "chunk"@, 0);
        if id <= 0 {
            Err((error_code::FILE_CORRUPTED_1, seq!["invalid chunk id "@ + decimal_of(id as int)]))
        } else {
            match first_unread(m, chunk_keys(full)) {
                Some(k) => Err(bad_value(m, k)),
                None => {
                    let v = chunk_values(m, id, full);
                    if !full || !m.contains_key("occupancy"@) {
                        Ok(v)
                    } else {
                        match hex_decode_result(m["occupancy"@]) {
                            Err(x) => Err(x),
                            Ok(bytes) => if v.page_count - v.page_count_live != bits_of(bytes).len() {
                                Err(
                                    (
                                        error_code::FILE_CORRUPTED_1,
                                        seq![
                                            occupancy_error_param(
                                                v.page_count,
                                                v.page_count_live,
                                                bits_of(bytes).len() as int,
                                            ),
                                        ],
                                    ),
                                )
                            } else {
                                Ok(ChunkView { occupancy: bits_of(bytes), ..v })
                            },
                        }
                    }
                },
            }
        }
    }
}

/// A chunk read in full from attributes without `livePages` has all its
/// pages live, and one without `liveMax` has all its length live: the live
/// counts default to the totals.
pub proof fn law_live_defaults_to_total(m: Map<Seq<char>, Seq<char>>)
    ensures
        chunk_outcome(m, true) matches Ok(v) ==> {
            &&& !m.contains_key("livePages"@) ==> v.page_count_live == v.page_count
            &&& !m.contains_key("liveMax"@) ==> v.max_len_live == v.max_len
        },
{
}

impl Chunk {
    /// Reads the chunk that the text `s` (a map, see `parseMap`) describes, in full.
    pub fn new(s: &str) -> (r: Result<Chunk, DbError>)
        ensures
            match parsed_map(s@) {
                None => r is Err,
                Some(m) => match chunk_outcome(m, true) {
                    Ok(v) => r matches Ok(c) && c.view_of() == v,
                    Err(x) => r matches Err(e) && is_error(e, x.0, x.1),
                },
            },
    {
        let map = match parseMap(s) {
            Ok(m) => m,
            Err(e) => return Err(e),
        };
        Self::new2(&map, true)
    }

    /// Reads the chunk that the attributes `map` describe; see `chunk_outcome`.
    pub fn new2(map: &Properties, full: bool) -> (r: Result<Chunk, DbError>)
        requires
            map.wf(),
        ensures
            match chunk_outcome(map.map(), full) {
                Ok(v) => r matches Ok(c) && c.view_of() == v,
                Err(x) => r matches Err(e) && is_error(e, x.0, x.1),
            },
    {
        let ghost m = map.map();
        let ghost keys = chunk_keys(full);
        let chunk_id = match readHexInt(map, "chunk", 0) {
            Ok(v) => v,
            Err(e) => return Err(e),
        };
        if 0 >= chunk_id {
            let id_text = i32_to_decimal(chunk_id);
            let text = str_concat("invalid chunk id ", id_text.as_str());
            return Err(DbError::get(error_code::FILE_CORRUPTED_1, one_param(text.as_str())));
        }
        proof {
            reveal_with_fuel(first_unread, 16);
        }
        let block = match readHexIntOrLong(map, "block", 0) {
            Ok(v) => v,
            Err(e) => return Err(e),
        };
        let version = match readHexIntOrLong(map, "version", chunk_id as i64) {
            Ok(v) => v,
            Err(e) => return Err(e),
        };
        let mut chunk = Chunk {
            id: chunk_id,
            block,
            version,
            block_count: 0,
            page_count: 0,
            page_count_live: 0,
            map_id: 0,
            max_len: 0,
            max_len_live: 0,
            layout_root_pos: 0,
            time: 0,
            unused: 0,
            unused_at_version: 0,
            next: 0,
            pin_count: 0,
            toc_pos: 0,
            occupancy: empty_occupancy(),
        };
        if !full {
            return Ok(chunk);
        }
        chunk.block_count = match readHexInt(map, "len", 0) {
            Ok(v) => v,
            Err(e) => return Err(e),
        };
        chunk.page_count = match readHexInt(map, "pages", 0) {
            Ok(v) => v,
            Err(e) => return Err(e),
        };
        chunk.page_count_live = match readHexInt(map, "livePages", chunk.page_count) {
            Ok(v) => v,
            Err(e) => return Err(e),
        };
        chunk.map_id = match readHexInt(map, "map", 0) {
            Ok(v) => v,
            Err(e) => return Err(e),
        };
        chunk.max_len = match readHexIntOrLong(map, "max", 0) {
            Ok(v) => v,
            Err(e) => return Err(e),
        };
        chunk.max_len_live = match readHexIntOrLong(map, "liveMax", chunk.max_len) {
            Ok(v) => v,
            Err(e) => return Err(e),
        };
        chunk.layout_root_pos = match readHexIntOrLong(map, "root", 0) {
            Ok(v) => v,
            Err(e) => return Err(e),
        };
        chunk.time = match readHexIntOrLong(map, "time", 0) {
            Ok(v) => v,
            Err(e) => return Err(e),
        };
        chunk.unused = match readHexIntOrLong(map, "unused", 0) {
            Ok(v) => v,
            Err(e) => return Err(e),
        };
        chunk.unused_at_version = match readHexIntOrLong(map, "unusedAtVersion", 0) {
            Ok(v) => v,
            Err(e) => return Err(e),
        };
        chunk.next = match readHexIntOrLong(map, "next", 0) {
            Ok(v) => v,
            Err(e) => return Err(e),
        };
        chunk.pin_count = match readHexInt(map, "pinCount", 0) {
            Ok(v) => v,
            Err(e) => return Err(e),
        };
        chunk.toc_pos = match readHexInt(map, "toc", 0) {
            Ok(v) => v,
            Err(e) => return Err(e),
        };
        match map.get("occupancy") {
            Some(text) => {
                let bytes = match convert_hex_to_byte_vec(text.as_str()) {
                    Ok(b) => b,
                    Err(e) => return Err(e),
                };
                let occupancy = occupancy_from_bytes(bytes.as_slice());
                let cardinality = occupancy_count(&occupancy);
                if chunk.page_count as i128 - chunk.page_count_live as i128 != cardinality as i128 {
                    let a = i32_to_decimal(chunk.page_count);
                    let b = i32_to_decimal(chunk.page_count_live);
                    let digits = radix_chars(cardinality as u64, 10);
                    let c = string_of(digits.as_slice());
                    let t1 = str_concat("inconsistent occupancy info ", a.as_str());
                    let t2 = str_concat(t1.as_str(), " - ");
                    let t3 = str_concat(t2.as_str(), b.as_str());
                    let t4 = str_concat(t3.as_str(), " != ");
                    let t5 = str_concat(t4.as_str(), c.as_str());
                    return Err(DbError::get(error_code::FILE_CORRUPTED_1, one_param(t5.as_str())));
                }
                chunk.occupancy = occupancy;
            },
            None => {},
        }
        Ok(chunk)
    }

    /// Where in the file the page at `offset` of the chunk, at `position`,
    /// is read: the chunk's first byte plus the offset, which may not be
    /// negative. A page of the large length class is read as long as the
    /// number in its first four bytes, and four more: where that number,
    /// `large_length`, is not known yet, it is to be read first. The length
    /// read ends at the end of the chunk, and may not be negative.
    pub fn readBufferForPage(&self, offset: i32, position: i64, large_length: Option<i32>) -> (r: Result<
        PageReadStep,
        DbError,
    >)
        requires
            i64::MIN <= self.block * 4096 <= i64::MAX,
            i64::MIN <= self.block * 4096 + offset <= i64::MAX,
            i32::MIN <= self.block_count * 4096 <= i32::MAX,
            i64::MIN <= self.block * 4096 + self.block_count * 4096 <= i64::MAX,
            large_length matches Some(l) ==> l <= i32::MAX - 4,
        ensures
            ({
                let start = self.block * 4096;
                let max_pos = start + self.block_count * 4096;
                let p = start + offset;
                let large = max_length_of(position) == PAGE_LARGE;
                let length = if large {
                    large_length->0 + 4
                } else {
                    max_length_of(position)
                };
                let l = if max_pos - p < length {
                    (max_pos - p) as i32 as int
                } else {
                    length
                };
                &&& p < 0 ==> (r matches Err(e) && is_error(
                    e,
                    error_code::FILE_CORRUPTED_1,
                    seq!["negative positionInFile:"@ + decimal_of(p) + "; position:"@ + decimal_of(position as int)],
                ))
                &&& p >= 0 && large && large_length is None ==> r == Ok::<PageReadStep, DbError>(
                    PageReadStep::ReadLength { position_in_file: p as i64 },
                )
                &&& p >= 0 && !(large && large_length is None) && l < 0 ==> (r matches Err(e) && is_error(
                    e,
                    error_code::FILE_CORRUPTED_1,
                    seq![
                        "illegal page length "@ + decimal_of(l) + " reading at "@ + decimal_of(p) + "; max pos "@
                            + decimal_of(max_pos) + " "@,
                    ],
                ))
                &&& p >= 0 && !(large && large_length is None) && l >= 0 ==> r == Ok::<PageReadStep, DbError>(
                    PageReadStep::Read { position_in_file: p as i64, length: l as i32 },
                )
            }),
    {
        let start = self.block * (BLOCK_SIZE as i64);
        let max_pos = start + (self.block_count * BLOCK_SIZE) as i64;
        let position_in_file = start + offset as i64;
        if position_in_file < 0 {
            let m1 = str_concat("negative positionInFile:", i64_to_decimal(position_in_file).as_str());
            let m2 = str_concat(m1.as_str(), "; position:");
            let m3 = str_concat(m2.as_str(), i64_to_decimal(position).as_str());
            proof {
                assert(m3@ =~= "negative positionInFile:"@ + decimal_of(position_in_file as int) + "; position:"@
                    + decimal_of(position as int));
            }
            return Err(DbError::get(error_code::FILE_CORRUPTED_1, one_param(m3.as_str())));
        }
        let mut length = getPageMaxLength(position);
        if length == PAGE_LARGE {
            match large_length {
                None => {
                    return Ok(PageReadStep::ReadLength { position_in_file });
                },
                Some(l) => {
                    length = l + 4;
                },
            }
        }
        let room = max_pos - position_in_file;
        let length = if room < length as i64 {
            room as i32
        } else {
            length
        };
        if length < 0 {
            let m1 = str_concat("illegal page length ", i32_to_decimal(length).as_str());
            let m2 = str_concat(m1.as_str(), " reading at ");
            let m3 = str_concat(m2.as_str(), i64_to_decimal(position_in_file).as_str());
            let m4 = str_concat(m3.as_str(), "; max pos ");
            let m5 = str_concat(m4.as_str(), i64_to_decimal(max_pos).as_str());
            let m6 = str_concat(m5.as_str(), " ");
            proof {
                assert(m6@ =~= "illegal page length "@ + decimal_of(length as int) + " reading at "@ + decimal_of(
                    position_in_file as int,
                ) + "; max pos "@ + decimal_of(max_pos as int) + " "@);
            }
            return Err(DbError::get(error_code::FILE_CORRUPTED_1, one_param(m6.as_str())));
        }
        Ok(PageReadStep::Read { position_in_file, length })
    }

    /// Whether the chunk was saved: its block is known.
    pub fn isSaved(&self) -> (r: bool)
        ensures
            r == (self.block != i64::MAX),
    {
        self.block != i64::MAX
    }
}

/// What to read from the file for a page: the four bytes of its length at
/// `position_in_file` first, or `length` bytes at `position_in_file`.
pub enum PageReadStep {
    ReadLength { position_in_file: i64 },
    Read { position_in_file: i64, length: i32 },
}

/// The largest length of the page at `position`, by its length class.
pub open spec fn max_length_of(position: i64) -> int {
    let code = ((position >> 1i64) & 31i64) as i32;
    if code == 31 {
        PAGE_LARGE as int
    } else {
        (2 + code % 2) * pow2_of((code / 2 + 4) as nat)
    }
}

/// The key of the chunk `chunk_id` in the layout map: `chunk.` followed by the
/// id in lower case hexadecimal (the 32 bits of a negative id).
pub fn get_meta_key(chunk_id: i32) -> (r: String)
    ensures
        r@ == "chunk."@ + hex_of((chunk_id as u32) as nat),
{
    let hex = i32_to_hex(chunk_id);
    str_concat("chunk.", hex.as_str())
}

/// Reads the chunk that the text `s` describes; see `Chunk::new`.
pub fn fromString(s: &str) -> (r: Result<Chunk, DbError>)
    ensures
        match parsed_map(s@) {
            None => r is Err,
            Some(m) => match chunk_outcome(m, true) {
                Ok(v) => r matches Ok(c) && c.view_of() == v,
                Err(x) => r matches Err(e) && is_error(e, x.0, x.1),
            },
        },
{
    Chunk::new(s)
}

} // verus!
