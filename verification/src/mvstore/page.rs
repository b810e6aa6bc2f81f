use vstd::prelude::*;
use crate::api::error_code;
use crate::h2_rust_common::byte_buffer::{be_u16, be_u32, be_u64, signed_of, ByteBuffer};
use crate::h2_rust_common::h2_rust_type::{string_value, H2RustType};
use crate::message::db_error::{is_error, one_param, DbError};
use crate::mvstore::data_utils::{
    getCheckValue, getPageChunkId, getPageOffset, getPageType, readVarInt, readVarLong, rest_of, var_fits, var_int_value,
    var_len, var_long_value, PAGE_TYPE_LEAF,
};
use crate::mvstore::types::string_data_type::{at, lex_less, lemma_lex_trichotomy, sorted_strings, StringDataType};
use crate::util::chars::{is_prefix, str_concat, string_of};
use crate::util::numfmt::{decimal_of, i32_to_decimal, radix_chars};

verus! {

/// A reference from a non-leaf page to a child page: the child's position (0
/// for none) and the number of entries below it.
#[derive(Clone, Copy)]
pub struct PageReference {
    pub position: i64,
    pub count: i64,
}

impl PageReference {
    /// A reference to the child at `position` with `count` entries below it.
    pub fn new2(position: i64, count: i64) -> (r: PageReference)
        ensures
            r.position == position,
            r.count == count,
    {
        PageReference { position, count }
    }

    /// The reference to no child.
    pub fn empty() -> (r: PageReference)
        ensures
            r.position == 0,
            r.count == 0,
    {
        PageReference { position: 0, count: 0 }
    }
}

/// What a page holds besides its keys: the values of a leaf, or the children of
/// a non-leaf page and the number of entries below it.
#[derive(Clone)]
pub enum PageContent {
    Leaf(Vec<H2RustType>),
    NonLeaf { children: Vec<PageReference>, total_count: i64 },
}

/// A page of a map as read from a chunk: the id of its map, its estimated
/// memory, its keys, the last result of a search, its position, its number
/// within the chunk, the space it takes on disk, and its content.
#[derive(Clone)]
pub struct Page {
    pub map_id: i32,
    pub memory: i32,
    pub keys: Vec<H2RustType>,
    pub cached_compare: i32,
    pub position: i64,
    pub page_no: i32,
    pub disk_space_used: i32,
    pub content: PageContent,
}

/// The signed 16-bit value of the two bytes of `b` at `p`.
pub open spec fn i16_at(b: Seq<u8>, p: int) -> int {
    signed_of(be_u16(b[p], b[p + 1]), 16)
}

/// The signed 32-bit value of the four bytes of `b` at `p`.
pub open spec fn i32_at(b: Seq<u8>, p: int) -> int {
    signed_of(be_u32(b[p], b[p + 1], b[p + 2], b[p + 3]), 32)
}

/// The signed 64-bit value of the eight bytes of `b` at `p`.
pub open spec fn i64_at(b: Seq<u8>, p: int) -> int {
    signed_of(be_u64(b.subrange(p, p + 8)), 64)
}

/// The length of the variable size int at `p`.
pub open spec fn var_int_len_at(b: Seq<u8>, p: int) -> int {
    var_len(b.subrange(p, b.len() as int), 5) as int
}

/// The variable size int at `p`.
pub open spec fn var_int_at(b: Seq<u8>, p: int) -> i32 {
    var_int_value(b.subrange(p, b.len() as int))
}

/// The length of the variable size long at `p`.
pub open spec fn var_long_len_at(b: Seq<u8>, p: int) -> int {
    var_len(b.subrange(p, b.len() as int), 10) as int
}

/// The variable size long at `p`.
pub open spec fn var_long_at(b: Seq<u8>, p: int) -> i64 {
    var_long_value(b.subrange(p, b.len() as int))
}

/// The check value of a number: its upper 16 bits xor its lower ones.
pub open spec fn check_value_of(x: i32) -> i16 {
    ((x >> 16i32) ^ x) as i16
}

/// The check value that a page header should hold: the check values of the
/// chunk id, the offset and the page length combined.
pub open spec fn check_test_of(chunk_id: i32, offset: i32, page_length: i32) -> i32 {
    (check_value_of(chunk_id) as i32) ^ (check_value_of(offset) as i32) ^ (check_value_of(page_length) as i32)
}

/// The message of a corrupt page in chunk `chunk_id`.
pub open spec fn corrupt_text(chunk_id: i32, detail: Seq<char>) -> Seq<char> {
    "file corrupted in chunk "@ + decimal_of(chunk_id as int) + ", "@ + detail
}

/// What is said of a page that ends before its fields do, or whose children
/// are not valid.
pub open spec fn malformed() -> Seq<char> {
    "page cut short or malformed"@
}

/// What reading a page header gives: why the page is corrupt, or its length,
/// its number, its key count and where the header ends.
pub enum HeaderRead {
    Corrupt(Seq<char>),
    Read { page_length: i32, page_no: i32, key_count: i32, end: int },
}

/// Reads the header of a page of the map `map_id` at `s` in `b`, not past
/// `lim`: its length (4 or more, and within the limit), its check value
/// (which must match), its number (not negative), its map id (which must
/// match), its key count (not negative) and its node type (which must match
/// `leaf`); the header must end within the page.
pub open spec fn header_read(
    b: Seq<u8>,
    s: int,
    lim: int,
    chunk_id: i32,
    offset: i32,
    map_id: i32,
    leaf: bool,
) -> HeaderRead {
    if s + 4 > lim {
        HeaderRead::Corrupt(malformed())
    } else {
        let len = i32_at(b, s) as i32;
        if len > lim - s || len < 4 {
            HeaderRead::Corrupt(
                "expected page length 4.."@ + decimal_of(lim - s) + ", got "@ + decimal_of(len as int),
            )
        } else if s + 6 > lim {
            HeaderRead::Corrupt(malformed())
        } else {
            let check = i16_at(b, s + 4) as i16;
            let t = check_test_of(chunk_id, offset, len);
            if check != t as i16 {
                HeaderRead::Corrupt(
                    "expected check value "@ + decimal_of(t as int) + ", got "@ + decimal_of(check as int),
                )
            } else {
                let p1 = s + 6;
                if p1 + var_int_len_at(b, p1) > lim {
                    HeaderRead::Corrupt(malformed())
                } else {
                    let page_no = var_int_at(b, p1);
                    let p2 = p1 + var_int_len_at(b, p1);
                    if page_no < 0 {
                        HeaderRead::Corrupt("got negative page No "@ + decimal_of(page_no as int))
                    } else if p2 + var_int_len_at(b, p2) > lim {
                        HeaderRead::Corrupt(malformed())
                    } else {
                        let id = var_int_at(b, p2);
                        let p3 = p2 + var_int_len_at(b, p2);
                        if id != map_id {
                            HeaderRead::Corrupt(
                                "expected map id "@ + decimal_of(map_id as int) + ", got "@ + decimal_of(id as int),
                            )
                        } else if p3 + var_int_len_at(b, p3) > lim {
                            HeaderRead::Corrupt(malformed())
                        } else {
                            let key_count = var_int_at(b, p3);
                            let p4 = p3 + var_int_len_at(b, p3);
                            if key_count < 0 {
                                HeaderRead::Corrupt(malformed())
                            } else if p4 + 1 > lim {
                                HeaderRead::Corrupt(malformed())
                            } else {
                                let t7 = signed_of(b[p4] as int, 8) as i8;
                                if leaf != (((t7 as i32) & 1i32) == 0) {
                                    HeaderRead::Corrupt(
                                        "expected node type "@ + (if leaf {
                                            "0"@
                                        } else {
                                            "1"@
                                        }) + ", got "@ + decimal_of(t7 as int),
                                    )
                                } else if p4 + 1 > s + len {
                                    HeaderRead::Corrupt(malformed())
                                } else {
                                    HeaderRead::Read { page_length: len, page_no, key_count, end: p4 + 1 }
                                }
                            }
                        }
                    }
                }
            }
        }
    }
}


/// The decimal digits of `n`.
fn usize_decimal(n: usize) -> (s: String)
    ensures
        s@ == decimal_of(n as int),
{
    let digits = radix_chars(n as u64, 10);
    string_of(digits.as_slice())
}

/// `a`, then the decimal digits of `x`, then `b`, then those of `y`.
fn two_numbers(a: &str, x: i32, b: &str, y: i32) -> (s: String)
    ensures
        s@ == a@ + decimal_of(x as int) + b@ + decimal_of(y as int),
{
    let s1 = str_concat(a, i32_to_decimal(x).as_str());
    let s2 = str_concat(s1.as_str(), b);
    let s3 = str_concat(s2.as_str(), i32_to_decimal(y).as_str());
    proof {
        assert(s3@ =~= a@ + decimal_of(x as int) + b@ + decimal_of(y as int));
    }
    s3
}

/// The text for a page that ends before its fields do, or whose children are
/// not valid.
fn malformed_text() -> (s: String)
    ensures
        s@ == malformed(),
{
    String::from_str("page cut short or malformed")
}

/// Reads the header of a page at the position of `b`; see `header_read`. A
/// corrupt header gives the reason.
fn read_header(b: &mut ByteBuffer, chunk_id: i32, offset: i32, map_id: i32, leaf: bool) -> (r: Result<
    (i32, i32, i32),
    String,
>)
    requires
        old(b).wf(),
    ensures
        final(b).wf(),
        final(b).bytes() == old(b).bytes(),
        final(b).lim() == old(b).lim(),
        final(b).cap() == old(b).cap(),
        match header_read(old(b).bytes(), old(b).pos(), old(b).lim(), chunk_id, offset, map_id, leaf) {
            HeaderRead::Corrupt(d) => r matches Err(m) && m@ == d,
            HeaderRead::Read { page_length, page_no, key_count, end } => r == Ok::<(i32, i32, i32), String>(
                (page_length, page_no, key_count),
            ) && final(b).pos() == end,
        },
{
    let ghost bytes = b.bytes();
    let ghost s = b.pos();
    let ghost lim = b.lim();
    proof {
        b.lemma_wf();
    }
    let start = b.getPosition();
    if b.getRemaining() < 4 {
        return Err(malformed_text());
    }
    let page_length = b.getI32();
    let remaining = b.getRemaining() + 4;
    if page_length < 4 || page_length as usize > remaining {
        let m1 = str_concat("expected page length 4..", usize_decimal(remaining).as_str());
        let m2 = str_concat(m1.as_str(), ", got ");
        let m3 = str_concat(m2.as_str(), i32_to_decimal(page_length).as_str());
        proof {
            assert(m3@ =~= "expected page length 4.."@ + decimal_of(lim - s) + ", got "@ + decimal_of(
                page_length as int,
            ));
        }
        return Err(m3);
    }
    proof {
        assert(page_length as usize == page_length);
        assert(start + page_length <= lim);
    }
    let ghost page_end = start + page_length;
    if b.getRemaining() < 2 {
        return Err(malformed_text());
    }
    let check = b.getI16();
    let check_test: i32 = (getCheckValue(chunk_id) as i32) ^ (getCheckValue(offset) as i32) ^ (getCheckValue(
        page_length,
    ) as i32);
    if check != check_test as i16 {
        return Err(two_numbers("expected check value ", check_test, ", got ", check as i32));
    }
    proof {
        b.lemma_wf();
        assert(rest_of(b) == bytes.subrange(s + 6, bytes.len() as int));
    }
    if !var_fits(b, 5) {
        return Err(malformed_text());
    }
    let page_no = readVarInt(b);
    if page_no < 0 {
        let m = str_concat("got negative page No ", i32_to_decimal(page_no).as_str());
        return Err(m);
    }
    proof {
        b.lemma_wf();
    }
    let ghost p2 = b.pos();
    proof {
        assert(rest_of(b) == bytes.subrange(p2, bytes.len() as int));
    }
    if !var_fits(b, 5) {
        return Err(malformed_text());
    }
    let id = readVarInt(b);
    if id != map_id {
        return Err(two_numbers("expected map id ", map_id, ", got ", id));
    }
    proof {
        b.lemma_wf();
    }
    let ghost p3 = b.pos();
    proof {
        assert(rest_of(b) == bytes.subrange(p3, bytes.len() as int));
    }
    if !var_fits(b, 5) {
        return Err(malformed_text());
    }
    let key_count = readVarInt(b);
    if key_count < 0 {
        return Err(malformed_text());
    }
    proof {
        b.lemma_wf();
    }
    if b.getRemaining() < 1 {
        return Err(malformed_text());
    }
    let t7 = b.getI8();
    if leaf != (((t7 as i32) & 1) == PAGE_TYPE_LEAF) {
        let m1 = str_concat(
            "expected node type ",
            if leaf {
                "0"
            } else {
                "1"
            },
        );
        let m2 = str_concat(m1.as_str(), ", got ");
        let m3 = str_concat(m2.as_str(), i32_to_decimal(t7 as i32).as_str());
        proof {
            reveal_strlit("0");
            reveal_strlit("1");
            assert(m3@ =~= "expected node type "@ + (if leaf {
                "0"@
            } else {
                "1"@
            }) + ", got "@ + decimal_of(t7 as int));
        }
        return Err(m3);
    }
    let limit = b.getLimit();
    proof {
        assert(start + page_length as usize == page_end);
        assert(page_end <= limit);
    }
    if b.getPosition() > start + page_length as usize {
        return Err(malformed_text());
    }
    Ok((page_length, page_no, key_count))
}


/// Reads `n` variable size longs one after the other from `p` in `b`, none
/// past `lim`: the values and where they end, or none where they do not fit.
pub open spec fn counts_read(b: Seq<u8>, p: int, lim: int, n: nat) -> Option<(Seq<i64>, int)>
    decreases n,
{
    if n == 0 {
        Some((Seq::empty(), p))
    } else {
        match counts_read(b, p, lim, (n - 1) as nat) {
            None => None,
            Some((cs, q)) => if q + var_long_len_at(b, q) <= lim {
                Some((cs.push(var_long_at(b, q)), q + var_long_len_at(b, q)))
            } else {
                None
            },
        }
    }
}

/// A child reference is valid: no entries without a position, and never a
/// negative number of them.
pub open spec fn child_ok(position: i64, count: i64) -> bool {
    if position == 0 {
        count == 0
    } else {
        count >= 0
    }
}

/// The sum of `cs`.
pub open spec fn sum_of(cs: Seq<i64>) -> int
    decreases cs.len(),
{
    if cs.len() == 0 {
        0
    } else {
        sum_of(cs.drop_last()) + cs.last()
    }
}

/// The positions of the children of a page, `k` of them as eight byte
/// numbers from `q` in `b`.
pub open spec fn positions_at(b: Seq<u8>, q: int, k: nat) -> Seq<i64> {
    Seq::new(k, |i: int| i64_at(b, q + 8 * i) as i64)
}

/// Reads the children of a non-leaf page with `k` keys from `q` in `b`, not
/// past `lim`: `k` positions, then `k` counts; every reference must be valid
/// and the counts must add up to an `i64`.
pub open spec fn children_read(b: Seq<u8>, q: int, lim: int, k: nat) -> Option<(Seq<i64>, Seq<i64>)> {
    if q + 8 * k > lim {
        None
    } else {
        match counts_read(b, q + 8 * k, lim, k) {
            None => None,
            Some((cs, _)) => {
                let ps = positions_at(b, q, k);
                if (forall|i: int| 0 <= i < k ==> child_ok(ps[i], #[trigger] cs[i])) && sum_of(cs) <= i64::MAX {
                    Some((ps, cs))
                } else {
                    None
                }
            },
        }
    }
}

proof fn lemma_counts_none(b: Seq<u8>, p: int, lim: int, m: nat, n: nat)
    requires
        m <= n,
        counts_read(b, p, lim, m) is None,
    ensures
        counts_read(b, p, lim, n) is None,
    decreases n,
{
    if m < n {
        lemma_counts_none(b, p, lim, m, (n - 1) as nat);
    }
}

proof fn lemma_counts_len(b: Seq<u8>, p: int, lim: int, n: nat)
    requires
        counts_read(b, p, lim, n) is Some,
    ensures
        counts_read(b, p, lim, n) matches Some((cs, _)) && cs.len() == n,
    decreases n,
{
    if n > 0 {
        lemma_counts_len(b, p, lim, (n - 1) as nat);
    }
}

proof fn lemma_sum_prefix(cs: Seq<i64>, i: int)
    requires
        0 <= i <= cs.len(),
        forall|j: int| 0 <= j < cs.len() ==> #[trigger] cs[j] >= 0,
    ensures
        0 <= sum_of(cs.take(i)) <= sum_of(cs),
    decreases cs.len(),
{
    if cs.len() > 0 {
        let d = cs.drop_last();
        assert forall|j: int| 0 <= j < d.len() implies #[trigger] d[j] >= 0 by {
            assert(d[j] == cs[j]);
        }
        if i == cs.len() {
            assert(cs.take(i) =~= cs);
            lemma_sum_prefix(d, d.len() as int);
            assert(d.take(d.len() as int) =~= d);
        } else {
            lemma_sum_prefix(d, i);
            assert(d.take(i) =~= cs.take(i));
            lemma_sum_prefix(d, d.len() as int);
            assert(d.take(d.len() as int) =~= d);
        }
    } else {
        assert(cs.take(i) =~= cs);
    }
}

/// Reads the children of a non-leaf page with `key_count` keys at the
/// position of `b`; see `children_read`.
fn read_children(b: &mut ByteBuffer, key_count: i32) -> (r: Option<(Vec<PageReference>, i64)>)
    requires
        old(b).wf(),
        key_count >= 0,
    ensures
        final(b).wf(),
        final(b).bytes() == old(b).bytes(),
        final(b).lim() == old(b).lim(),
        final(b).cap() == old(b).cap(),
        match children_read(old(b).bytes(), old(b).pos(), old(b).lim(), key_count as nat) {
            None => r is None,
            Some((ps, cs)) => r matches Some((children, total)) && children@.len() == key_count && total == sum_of(
                cs,
            ) && forall|i: int|
                0 <= i < key_count ==> (#[trigger] children@[i]).position == ps[i] && children@[i].count == cs[i],
        },
{
    let ghost bytes = b.bytes();
    let ghost q = b.pos();
    let ghost lim = b.lim();
    proof {
        b.lemma_wf();
    }
    let k = key_count as usize;
    if (b.getRemaining() as u64) < (key_count as u64) * 8 {
        return None;
    }
    let mut positions: Vec<i64> = Vec::new();
    let mut i: usize = 0;
    while i < k
        invariant
            b.wf(),
            bytes == old(b).bytes(),
            lim == old(b).lim(),
            q == old(b).pos(),
            old(b).cap() == bytes.len(),
            b.bytes() == bytes,
            b.lim() == lim,
            b.cap() == bytes.len(),
            q + 8 * k <= lim,
            i <= k,
            k == key_count,
            b.pos() == q + 8 * i,
            positions@.len() == i,
            forall|j: int| 0 <= j < i ==> #[trigger] positions@[j] == i64_at(bytes, q + 8 * j),
        decreases k - i,
    {
        let v = b.getI64();
        positions.push(v);
        i = i + 1;
    }
    let ghost c0 = b.pos();
    let mut counts: Vec<i64> = Vec::new();
    i = 0;
    while i < k
        invariant
            b.wf(),
            bytes == old(b).bytes(),
            lim == old(b).lim(),
            q == old(b).pos(),
            old(b).cap() == bytes.len(),
            b.bytes() == bytes,
            b.lim() == lim,
            b.cap() == bytes.len(),
            c0 == q + 8 * k,
            i <= k,
            k == key_count,
            counts_read(bytes, c0, lim, i as nat) == Some((counts@, b.pos())),
        decreases k - i,
    {
        proof {
            b.lemma_wf();
            assert(rest_of(b) == bytes.subrange(b.pos(), bytes.len() as int));
        }
        if !var_fits(b, 10) {
            proof {
                assert(counts_read(bytes, c0, lim, (i + 1) as nat) is None);
                lemma_counts_none(bytes, c0, lim, (i + 1) as nat, k as nat);
            }
            return None;
        }
        let c = readVarLong(b);
        counts.push(c);
        i = i + 1;
    }
    proof {
        lemma_counts_len(bytes, c0, lim, k as nat);
        assert(positions@ =~= positions_at(bytes, q, k as nat));
    }
    let ghost cs = counts@;
    let ghost cend = b.pos();
    i = 0;
    while i < k
        invariant
            b.wf(),
            bytes == old(b).bytes(),
            lim == old(b).lim(),
            q == old(b).pos(),
            old(b).cap() == bytes.len(),
            b.bytes() == bytes,
            b.lim() == lim,
            b.cap() == bytes.len(),
            i <= k,
            k == key_count,
            counts@ == cs,
            cs.len() == k,
            c0 == q + 8 * k,
            q + 8 * k <= lim,
            counts_read(bytes, c0, lim, k as nat) == Some((cs, cend)),
            positions@ == positions_at(bytes, q, k as nat),
            forall|j: int| 0 <= j < i ==> child_ok(positions@[j], #[trigger] cs[j]),
        decreases k - i,
    {
        let position = positions[i];
        let count = counts[i];
        let ok = if position == 0 {
            count == 0
        } else {
            count >= 0
        };
        if !ok {
            return None;
        }
        i = i + 1;
    }
    let mut children: Vec<PageReference> = Vec::new();
    let mut total: i64 = 0;
    i = 0;
    while i < k
        invariant
            b.wf(),
            bytes == old(b).bytes(),
            lim == old(b).lim(),
            q == old(b).pos(),
            old(b).cap() == bytes.len(),
            b.bytes() == bytes,
            b.lim() == lim,
            b.cap() == bytes.len(),
            i <= k,
            k == key_count,
            counts@ == cs,
            cs.len() == k,
            c0 == q + 8 * k,
            q + 8 * k <= lim,
            counts_read(bytes, c0, lim, k as nat) == Some((cs, cend)),
            positions@ == positions_at(bytes, q, k as nat),
            forall|j: int| 0 <= j < k ==> child_ok(positions@[j], #[trigger] cs[j]),
            total == sum_of(cs.take(i as int)),
            children@.len() == i,
            forall|j: int|
                0 <= j < i ==> (#[trigger] children@[j]).position == positions@[j] && children@[j].count == cs[j],
        decreases k - i,
    {
        let position = positions[i];
        let count = counts[i];
        proof {
            assert(cs.take((i + 1) as int).drop_last() =~= cs.take(i as int));
            assert(child_ok(positions@[i as int], cs[i as int]));
        }
        if total > i64::MAX - count {
            proof {
                assert forall|j: int| 0 <= j < cs.len() implies #[trigger] cs[j] >= 0 by {
                    assert(child_ok(positions@[j], cs[j]));
                }
                lemma_sum_prefix(cs, (i + 1) as int);
            }
            return None;
        }
        total = total + count;
        children.push(
            if position == 0 {
                PageReference::empty()
            } else {
                PageReference::new2(position, count)
            },
        );
        i = i + 1;
    }
    proof {
        assert(cs.take(k as int) =~= cs);
    }
    Some((children, total))
}


/// Whether the page at `position` is a leaf: the lowest bit of its position
/// is 0.
pub open spec fn page_is_leaf(position: i64) -> bool {
    ((position as i32) & 1i32) == PAGE_TYPE_LEAF
}

/// The chunk of the page at `position`: its upper 26 bits.
pub open spec fn chunk_of(position: i64) -> i32 {
    ((position as u64) / 0x40_0000_0000) as i32
}

/// The offset within its chunk of the page at `position`.
pub open spec fn offset_of(position: i64) -> i32 {
    (position >> 6i64) as i32
}

/// What reading a page gives: why it is corrupt, or its length, number and key
/// count, with the positions and counts of its children where it is not a
/// leaf.
pub enum PageRead {
    Corrupt(Seq<char>),
    Read { page_length: i32, page_no: i32, key_count: i32, children: Option<(Seq<i64>, Seq<i64>)> },
}

/// Reads the page at `position` of the map `map_id` from `s` in `b`, not past
/// `lim`: its header (see `header_read`), then, for a non-leaf page, its
/// children within the page (see `children_read`).
pub open spec fn page_read(b: Seq<u8>, s: int, lim: int, position: i64, map_id: i32) -> PageRead {
    let leaf = page_is_leaf(position);
    match header_read(b, s, lim, chunk_of(position), offset_of(position), map_id, leaf) {
        HeaderRead::Corrupt(d) => PageRead::Corrupt(d),
        HeaderRead::Read { page_length, page_no, key_count, end } => if leaf {
            PageRead::Read { page_length, page_no, key_count, children: None }
        } else {
            match children_read(b, end, s + page_length, key_count as nat) {
                None => PageRead::Corrupt(malformed()),
                Some(c) => PageRead::Read { page_length, page_no, key_count, children: Some(c) },
            }
        },
    }
}

/// The check value a page header must hold: the check values of the chunk id
/// `c`, the offset `o` and the page length `len` combined by exclusive or,
/// where the check value of `x` is `(x >> 16) ^ x` cut to 16 bits.
pub open spec fn expected_check(c: i32, o: i32, len: i32) -> i32 {
    (((c >> 16i32) ^ c) as i16 as i32) ^ (((o >> 16i32) ^ o) as i16 as i32) ^ (((len >> 16i32) ^ len) as i16
        as i32)
}

/// A page header is checked against the chunk id and offset of the page's
/// position and its length (see `expected_check`): where it holds another
/// check value the page is corrupt, both values named; where it holds that
/// one, the page is never refused for its check value, whatever its chunk.
pub proof fn law_page_check_value(b: Seq<u8>, s: int, lim: int, position: i64, map_id: i32)
    requires
        s + 6 <= lim,
        4 <= i32_at(b, s) as i32 <= lim - s,
    ensures
        ({
            let len = i32_at(b, s) as i32;
            let e = expected_check(chunk_of(position), offset_of(position), len);
            let stored = i16_at(b, s + 4) as i16;
            &&& stored != e as i16 ==> page_read(b, s, lim, position, map_id) == PageRead::Corrupt(
                "expected check value "@ + decimal_of(e as int) + ", got "@ + decimal_of(stored as int),
            )
            &&& stored == e as i16 ==> !(page_read(b, s, lim, position, map_id) matches PageRead::Corrupt(d)
                && is_prefix("expected check value"@, d))
        }),
{
    reveal_strlit("expected check value");
    reveal_strlit("page cut short or malformed");
    reveal_strlit("got negative page No ");
    reveal_strlit("expected map id ");
    reveal_strlit("expected node type ");
    reveal_strlit(", got ");
    reveal_strlit("0");
    reveal_strlit("1");
    let len = i32_at(b, s) as i32;
    let c = chunk_of(position);
    let o = offset_of(position);
    assert(check_test_of(c, o, len) == expected_check(c, o, len));
    let r = page_read(b, s, lim, position, map_id);
    if let PageRead::Corrupt(d) = r {
        if i16_at(b, s + 4) as i16 == expected_check(c, o, len) as i16 {
            let p = "expected check value"@;
            if is_prefix(p, d) {
                assert(d[9] == d.subrange(0, p.len() as int)[9]);
                assert(d[9] == 'c');
                assert(false);
            }
        }
    }
}

/// The error for a corrupt page in chunk `chunk_id`.
fn corrupt(chunk_id: i32, detail: String) -> (e: DbError)
    ensures
        is_error(e, error_code::FILE_CORRUPTED_1, seq![corrupt_text(chunk_id, detail@)]),
{
    let m1 = str_concat("file corrupted in chunk ", i32_to_decimal(chunk_id).as_str());
    let m2 = str_concat(m1.as_str(), ", ");
    let m3 = str_concat(m2.as_str(), detail.as_str());
    proof {
        assert(m3@ =~= corrupt_text(chunk_id, detail@));
    }
    DbError::get(error_code::FILE_CORRUPTED_1, one_param(m3.as_str()))
}

/// All of `v` are the empty string.
pub open spec fn all_empty(v: Seq<H2RustType>) -> bool {
    forall|i: int| 0 <= i < v.len() ==> (#[trigger] v[i] is String && string_value(v[i]) == Seq::<char>::empty())
}

/// Reads the page at `position` of the map with the id `mv_map_id` from the
/// position of `byteBuffer`; see `page_read`. A corrupt page is an error
/// `FILE_CORRUPTED_1`, whose message names the chunk and what is wrong. The
/// page's keys, and a leaf's values, are read with the string type, which
/// reads each as the empty string; its memory is estimated as 1; the limit of
/// the buffer is left at the end of the page.
pub fn readFromByteBuffer(byteBuffer: &mut ByteBuffer, position: i64, mv_map_id: i32) -> (r: Result<Page, DbError>)
    requires
        old(byteBuffer).wf(),
    ensures
        final(byteBuffer).wf(),
        final(byteBuffer).bytes() == old(byteBuffer).bytes(),
        final(byteBuffer).cap() == old(byteBuffer).cap(),
        match page_read(
            old(byteBuffer).bytes(),
            old(byteBuffer).pos(),
            old(byteBuffer).lim(),
            position,
            mv_map_id,
        ) {
            PageRead::Corrupt(d) => r matches Err(e) && is_error(
                e,
                error_code::FILE_CORRUPTED_1,
                seq![corrupt_text(chunk_of(position), d)],
            ),
            PageRead::Read { page_length, page_no, key_count, children } => r matches Ok(p) && {
                &&& p.position == position
                &&& p.map_id == mv_map_id
                &&& p.page_no == page_no
                &&& p.disk_space_used == page_length
                &&& p.memory == 1
                &&& p.cached_compare == 0
                &&& p.keys@.len() == key_count
                &&& all_empty(p.keys@)
                &&& final(byteBuffer).lim() == old(byteBuffer).pos() + page_length
                &&& match children {
                    None => p.content matches PageContent::Leaf(values) && values@.len() == key_count && all_empty(
                        values@,
                    ),
                    Some((ps, cs)) => p.content matches PageContent::NonLeaf { children: refs, total_count }
                        && refs@.len() == key_count && total_count == sum_of(cs) && forall|i: int|
                        0 <= i < key_count ==> (#[trigger] refs@[i]).position == ps[i] && refs@[i].count == cs[i],
                }
            },
        },
{
    let chunk_id = getPageChunkId(position);
    let offset = getPageOffset(position);
    let leaf = getPageType(position) == PAGE_TYPE_LEAF;
    proof {
        byteBuffer.lemma_wf();
    }
    let start = byteBuffer.getPosition();
    let limit = byteBuffer.getLimit();
    let ghost bytes = byteBuffer.bytes();
    let (page_length, page_no, key_count) = match read_header(byteBuffer, chunk_id, offset, mv_map_id, leaf) {
        Err(d) => {
            return Err(corrupt(chunk_id, d));
        },
        Ok(h) => h,
    };
    proof {
        byteBuffer.lemma_wf();
        let h = header_read(bytes, start as int, limit as int, chunk_id, offset, mv_map_id, leaf);
        assert(h matches HeaderRead::Read { page_length: l, .. } && l == page_length);
        assert(4 <= page_length <= limit - start);
    }
    byteBuffer.setLimit(start + page_length as usize);
    let key_type = StringDataType {};
    let mut content = PageContent::Leaf(Vec::new());
    if !leaf {
        match read_children(byteBuffer, key_count) {
            None => {
                return Err(corrupt(chunk_id, malformed_text()));
            },
            Some((children, total)) => {
                content = PageContent::NonLeaf { children, total_count: total };
            },
        }
    }
    let mut keys = key_type.create_storage(key_count);
    key_type.read_3(byteBuffer, &mut keys, key_count);
    if leaf {
        let mut values = key_type.create_storage(key_count);
        key_type.read_3(byteBuffer, &mut values, key_count);
        content = PageContent::Leaf(values);
    }
    Ok(
        Page {
            map_id: mv_map_id,
            memory: 1,
            keys,
            cached_compare: 0,
            position,
            page_no,
            disk_space_used: page_length,
            content,
        },
    )
}


/// The memory of a page that is not persistent.
pub const IN_MEMORY: i32 = -2147483648i32;

/// The estimated bytes of a page: the object, two pointers, the key array and
/// 17 bytes of fields.
pub const PAGE_MEMORY: i32 = 24 + 2 * 8 + 24 + 17;

/// The estimated bytes of an empty leaf: a page, a pointer and the value array.
pub const PAGE_LEAF_MEMORY: i32 = PAGE_MEMORY + 8 + 24;

/// Storage for `size` child references: an empty vector with room for them.
pub fn createRefStorage(size: usize) -> (r: Vec<PageReference>)
    ensures
        r@.len() == 0,
{
    Vec::with_capacity(size)
}

impl Page {
    /// A leaf of the map `map_id` with these keys and values; its memory is
    /// `IN_MEMORY` for a map that is not persistent, else `memory`, or 1 (the
    /// estimate of a page) where `memory` is 0.
    pub fn createLeaf(map_id: i32, persistent: bool, keys: Vec<H2RustType>, values: Vec<H2RustType>, memory: i32) -> (p:
        Page)
        requires
            persistent ==> memory >= 0,
        ensures
            p.map_id == map_id,
            p.keys == keys,
            p.content == PageContent::Leaf(values),
            p.memory == (if !persistent {
                IN_MEMORY
            } else if memory == 0 {
                1
            } else {
                memory
            }),
            p.position == 0,
            p.page_no == -1,
            p.cached_compare == 0,
            p.disk_space_used == 0,
    {
        let mut page = Page {
            map_id,
            memory: 0,
            keys,
            cached_compare: 0,
            position: 0,
            page_no: -1,
            disk_space_used: 0,
            content: PageContent::Leaf(values),
        };
        page.initMemoryCount(persistent, memory);
        page
    }

    /// An empty leaf of the map `map_id`, with the memory of an empty leaf.
    pub fn createEmptyLeaf(map_id: i32, persistent: bool) -> (p: Page)
        ensures
            p.map_id == map_id,
            p.keys@.len() == 0,
            p.content matches PageContent::Leaf(v) && v@.len() == 0,
            p.memory == (if persistent {
                PAGE_LEAF_MEMORY
            } else {
                IN_MEMORY
            }),
    {
        let key_type = StringDataType {};
        let keys = key_type.create_storage(0);
        let values = key_type.create_storage(0);
        Self::createLeaf(map_id, persistent, keys, values, PAGE_LEAF_MEMORY)
    }

    /// Sets the memory of the page: `IN_MEMORY` where its map is not
    /// persistent; else the estimate of a page (1) where `memory_count` is 0,
    /// and `memory_count` added to the memory so far otherwise.
    fn initMemoryCount(&mut self, persistent: bool, memory_count: i32)
        requires
            old(self).memory == 0,
            persistent ==> memory_count >= 0,
        ensures
            *final(self) == (Page {
                memory: if !persistent {
                    IN_MEMORY
                } else if memory_count == 0 {
                    1
                } else {
                    memory_count
                },
                ..*old(self)
            }),
    {
        if !persistent {
            self.memory = IN_MEMORY;
        } else if memory_count == 0 {
            self.memory = 1;
        } else {
            self.memory = self.memory + memory_count;
        }
    }

    /// Whether the page's memory is counted: it is not `IN_MEMORY`.
    pub fn is_persistent(&self) -> (r: bool)
        ensures
            r == (self.memory != IN_MEMORY),
    {
        self.memory != IN_MEMORY
    }

    /// The memory of the page, or 0 where it is not counted.
    pub fn get_memory(&self) -> (r: i32)
        ensures
            r == (if self.memory != IN_MEMORY {
                self.memory
            } else {
                0
            }),
    {
        if self.is_persistent() {
            self.memory
        } else {
            0
        }
    }

    /// The number of keys.
    pub fn getKeyCount(&self) -> (r: i32)
        requires
            self.keys@.len() <= i32::MAX,
        ensures
            r == self.keys@.len(),
    {
        self.keys.len() as i32
    }

    /// Searches `key` among the keys, starting from the last result; see
    /// `StringDataType::binary_search`. The result is remembered: the index
    /// after a key found, or the insertion point of a key not found.
    pub fn binarySearch(&mut self, key: &H2RustType) -> (r: i32)
        requires
            key is String,
            old(self).keys@.len() <= i32::MAX,
            sorted_strings(old(self).keys@, old(self).keys@.len() as i32),
        ensures
            r >= 0 ==> r < old(self).keys@.len() && string_value(at(old(self).keys@, r)) == string_value(*key),
            r < 0 ==> ({
                let p = -r - 1;
                &&& 0 <= p <= old(self).keys@.len()
                &&& forall|i: int| 0 <= i < p ==> lex_less(string_value(#[trigger] old(self).keys@[i]), string_value(*key))
                &&& forall|i: int|
                    p <= i < old(self).keys@.len() ==> lex_less(string_value(*key), string_value(#[trigger] old(self).keys@[i]))
            }),
            *final(self) == (Page {
                cached_compare: if r < 0 {
                    -r - 1
                } else {
                    r + 1
                } as i32,
                ..*old(self)
            }),
    {
        let key_type = StringDataType {};
        let size = self.getKeyCount();
        let res = key_type.binary_search(key, &self.keys, size, self.cached_compare);
        if res < 0 {
            proof {
                assert(res < 0 ==> !res == -res - 1) by (bit_vector);
            }
            self.cached_compare = !res;
        } else {
            self.cached_compare = res + 1;
        }
        res
    }

    /// The value at `index` of a leaf, or null where there is none.
    pub fn getValue(&self, index: i32) -> (r: H2RustType)
        requires
            self.content is Leaf,
        ensures
            r == value_or_null(self.content->Leaf_0@, index as int),
    {
        match &self.content {
            PageContent::Leaf(values) => {
                if index >= 0 && (index as usize) < values.len() {
                    values[index as usize].clone()
                } else {
                    H2RustType::Null
                }
            },
            PageContent::NonLeaf { .. } => H2RustType::Null,
        }
    }

    /// The copy of a leaf that the map `map_id` takes as its root: a fresh
    /// page of that map with no keys, nothing counted, and the leaf's values.
    pub fn copy(&self, map_id: i32) -> (p: Page)
        requires
            self.content is Leaf,
        ensures
            p.map_id == map_id,
            p.memory == 0,
            p.keys@.len() == 0,
            p.cached_compare == 0,
            p.position == 0,
            p.page_no == 0,
            p.disk_space_used == 0,
            p.content is Leaf,
            p.content->Leaf_0@ == self.content->Leaf_0@,
    {
        let mut values: Vec<H2RustType> = Vec::new();
        match &self.content {
            PageContent::Leaf(source) => {
                let mut i: usize = 0;
                while i < source.len()
                    invariant
                        i <= source@.len(),
                        values@ == source@.subrange(0, i as int),
                    decreases source@.len() - i,
                {
                    values.push(source[i].clone());
                    i = i + 1;
                }
                proof {
                    assert(source@.subrange(0, source@.len() as int) =~= source@);
                }
            },
            PageContent::NonLeaf { .. } => {},
        }
        Page {
            map_id,
            memory: 0,
            keys: Vec::new(),
            cached_compare: 0,
            position: 0,
            page_no: 0,
            disk_space_used: 0,
            content: PageContent::Leaf(values),
        }
    }

    /// The reference to the child at `index` of a non-leaf page; the page it
    /// names is read from its position.
    pub fn getChildPage(&self, index: i32) -> (r: PageReference)
        requires
            self.content is NonLeaf,
            0 <= index < self.content->children@.len(),
        ensures
            r == self.content->children@[index as int],
    {
        match &self.content {
            PageContent::NonLeaf { children, .. } => children[index as usize],
            PageContent::Leaf(_) => PageReference::empty(),
        }
    }
}

/// The value at `i`, or null where there is none.
pub open spec fn value_or_null(values: Seq<H2RustType>, i: int) -> H2RustType {
    if 0 <= i < values.len() {
        values[i]
    } else {
        H2RustType::Null
    }
}

/// Where a lookup goes from a page: the value it found in a leaf (null for a
/// key that is not there), or the child of a non-leaf page to go on in.
pub enum GetStep {
    Value(H2RustType),
    Child(i32),
}

/// Whether the key at `i` of `keys` is `key`.
pub open spec fn key_at(keys: Seq<H2RustType>, key: H2RustType, i: int) -> bool {
    0 <= i < keys.len() && string_value(keys[i]) == string_value(key)
}

/// Whether `p` is where `key` goes among the sorted `keys`: all before it
/// come before the key, all from it on come after it.
pub open spec fn insertion_point(keys: Seq<H2RustType>, key: H2RustType, p: int) -> bool {
    &&& 0 <= p <= keys.len()
    &&& forall|i: int| 0 <= i < p ==> lex_less(string_value(#[trigger] keys[i]), string_value(key))
    &&& forall|i: int| p <= i < keys.len() ==> lex_less(string_value(key), string_value(#[trigger] keys[i]))
}

/// What one step of a lookup of `key` in a page with these keys and this
/// content gives. In a leaf: the value of one of the places that hold the key,
/// and null where none does. In a non-leaf page: the child after one of the
/// places that hold the key, or, where none does, the child at the key's
/// insertion point.
pub open spec fn get_step_of(keys: Seq<H2RustType>, content: PageContent, key: H2RustType, r: GetStep) -> bool {
    match content {
        PageContent::Leaf(values) => {
            &&& (exists|i: int| key_at(keys, key, i)) ==> (exists|i: int|
                #[trigger] key_at(keys, key, i) && r == GetStep::Value(value_or_null(values@, i)))
            &&& !(exists|i: int| key_at(keys, key, i)) ==> r == GetStep::Value(H2RustType::Null)
        },
        PageContent::NonLeaf { .. } => {
            &&& (exists|i: int| key_at(keys, key, i)) ==> (exists|i: int|
                #[trigger] key_at(keys, key, i) && r == GetStep::Child((i + 1) as i32))
            &&& !(exists|i: int| key_at(keys, key, i)) ==> (r matches GetStep::Child(c) && insertion_point(
                keys,
                key,
                c as int,
            ))
        },
    }
}

/// One step of a lookup of `key`, which starts at a map's root page: in a
/// leaf, the value of the key or null; in a non-leaf page, the index of the
/// child below which the key lies. The caller reads that child (see
/// `Page::getChildPage`) and takes the next step there. The search result is
/// remembered in the page.
pub fn get(page: &mut Page, key: &H2RustType) -> (r: GetStep)
    requires
        key is String,
        old(page).keys@.len() < i32::MAX,
        sorted_strings(old(page).keys@, old(page).keys@.len() as i32),
    ensures
        get_step_of(old(page).keys@, old(page).content, *key, r),
        *final(page) == (Page { cached_compare: final(page).cached_compare, ..*old(page) }),
{
    let ghost keys = page.keys@;
    let index = page.binarySearch(key);
    match &page.content {
        PageContent::Leaf(values) => {
            if index >= 0 {
                let v = page.getValue(index);
                proof {
                    assert(key_at(keys, *key, index as int));
                }
                GetStep::Value(v)
            } else {
                proof {
                    assert forall|i: int| !key_at(keys, *key, i) by {
                        lemma_not_at_insertion(keys, *key, -index - 1, i);
                    }
                }
                GetStep::Value(H2RustType::Null)
            }
        },
        PageContent::NonLeaf { .. } => {
            if index >= 0 {
                proof {
                    assert(key_at(keys, *key, index as int));
                }
                GetStep::Child(index + 1)
            } else {
                proof {
                    assert forall|i: int| !key_at(keys, *key, i) by {
                        lemma_not_at_insertion(keys, *key, -index - 1, i);
                    }
                }
                GetStep::Child(-(index + 1))
            }
        },
    }
}

/// No place holds a key that has an insertion point.
proof fn lemma_not_at_insertion(keys: Seq<H2RustType>, key: H2RustType, p: int, i: int)
    requires
        insertion_point(keys, key, p),
    ensures
        !key_at(keys, key, i),
{
    if key_at(keys, key, i) {
        lemma_lex_trichotomy(string_value(key), string_value(key));
        if i < p {
            assert(lex_less(string_value(keys[i]), string_value(key)));
        } else {
            assert(lex_less(string_value(key), string_value(keys[i])));
        }
    }
}

} // verus!
