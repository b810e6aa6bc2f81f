use vstd::prelude::*;
use crate::api::error_code;
use crate::h2_rust_common::byte_buffer::ByteBuffer;
use crate::h2_rust_common::h2_rust_utils::{decoded_integer, integer_decode, integer_decodes};
use crate::h2_rust_common::properties::Properties;
use crate::message::db_error::{DbError, is_error, one_param};
use crate::mvstore::store_config::{ConfigValue, ConfigValueView, StoreConfig};
use crate::util::chars::{chars_find, chars_of, chars_slice, str_concat, string_of};
use crate::util::radix::{parse_i64_radix, parse_radix};

verus! {

/// An error occurred while reading from the file.
pub const ERROR_READING_FAILED: i32 = 1;

/// An error occurred when trying to write to the file.
pub const ERROR_WRITING_FAILED: i32 = 2;

/// An internal error occurred.
pub const ERROR_INTERNAL: i32 = 3;

/// The object is already closed.
pub const ERROR_CLOSED: i32 = 4;

/// The file format is not supported.
pub const ERROR_UNSUPPORTED_FORMAT: i32 = 5;

/// The file is corrupt or (for encrypted files) the encryption key is wrong.
pub const ERROR_FILE_CORRUPT: i32 = 6;

/// The file is locked.
pub const ERROR_FILE_LOCKED: i32 = 7;

/// An error occurred when serializing or de-serializing.
pub const ERROR_SERIALIZATION: i32 = 8;

/// A chunk that is no longer available was read.
pub const ERROR_CHUNK_NOT_FOUND: i32 = 9;

/// A block of the stream store was not found.
pub const ERROR_BLOCK_NOT_FOUND: i32 = 50;

/// The transaction store is corrupt.
pub const ERROR_TRANSACTION_CORRUPT: i32 = 100;

/// An entry is still locked by another transaction.
pub const ERROR_TRANSACTION_LOCKED: i32 = 101;

/// There are too many open transactions.
pub const ERROR_TOO_MANY_OPEN_TRANSACTIONS: i32 = 102;

/// The transaction store is in an illegal state.
pub const ERROR_TRANSACTION_ILLEGAL_STATE: i32 = 103;

/// The transaction contains too many changes.
pub const ERROR_TRANSACTION_TOO_BIG: i32 = 104;

/// A deadlock was found and a transaction was rolled back.
pub const ERROR_TRANSACTIONS_DEADLOCK: i32 = 105;

/// A data type of the transaction store is not registered.
pub const ERROR_UNKNOWN_DATA_TYPE: i32 = 106;

/// The type for leaf page.
pub const PAGE_TYPE_LEAF: i32 = 0;

/// The type for node page.
pub const PAGE_TYPE_NODE: i32 = 1;

/// The bit mask for compressed pages (compression level fast).
pub const PAGE_COMPRESSED: i32 = 2;

/// The bit mask for compressed pages (compression level high).
pub const PAGE_COMPRESSED_HIGH: i32 = 2 + 4;

/// The bit mask for pages with page sequential number.
pub const PAGE_HAS_PAGE_NO: i32 = 8;

/// The maximum length of a variable size int.
pub const MAX_VAR_INT_LEN: i32 = 5;

/// The maximum length of a variable size long.
pub const MAX_VAR_LONG_LEN: i32 = 10;

/// The maximum integer that takes three bytes or fewer in variable size encoding.
pub const COMPRESSED_VAR_INT_MAX: i32 = 0x1fffff;

/// The maximum long that takes seven bytes or fewer in variable size encoding.
pub const COMPRESSED_VAR_LONG_MAX: i64 = 0x1ffffffffffff;

/// The marker size of a very large page.
pub const PAGE_LARGE: i32 = 2 * 1024 * 1024;

/// The prefix of the layout keys of chunks.
pub const META_CHUNK: &'static str = "chunk.";

/// The prefix of the layout keys of map roots.
pub const META_ROOT: &'static str = "root.";

/// The prefix of the meta keys of map names.
pub const META_NAME: &'static str = "name.";

/// The prefix of the meta keys of maps.
pub const META_MAP: &'static str = "map.";

/// What `get_config_int_param` gives: a number set under `key` as is, a text
/// set under `key` read by `integer_decode` where it reads, otherwise the default.
pub open spec fn config_int(config: Map<Seq<char>, ConfigValueView>, key: Seq<char>, default_value: i32) -> i32 {
    if config.contains_key(key) {
        match config[key] {
            ConfigValueView::Int(i) => i,
            ConfigValueView::Str(s) => if integer_decodes(s) {
                decoded_integer(s)->0 as i32
            } else {
                default_value
            },
            ConfigValueView::Flag => default_value,
        }
    } else {
        default_value
    }
}

/// The number set under `key`, read from a text where needed, or the default.
pub fn get_config_int_param(config: &StoreConfig, key: &str, default_value: i32) -> (r: i32)
    ensures
        r == config_int(config.map(), key@, default_value),
{
    match config.get(key) {
        Some(ConfigValue::Int(i)) => *i,
        Some(ConfigValue::Str(s)) => match integer_decode(s.as_str()) {
            Ok(r) => r,
            Err(_) => default_value,
        },
        Some(ConfigValue::Flag) => default_value,
        None => default_value,
    }
}

/// Fails with the general error carrying `message` unless `test` holds.
pub fn check_argument(test: bool, message: &str) -> (r: Result<(), DbError>)
    ensures
        test ==> r is Ok,
        !test ==> (r matches Err(e) && is_error(e, error_code::GENERAL_ERROR_1, seq![message@])),
{
    if !test {
        return Err(DbError::get(error_code::GENERAL_ERROR_1, one_param(message)));
    }
    Ok(())
}

/// Whether a page position denotes a saved page: all bits but the lowest are not all zero.
pub fn is_page_saved(position: i64) -> (r: bool)
    ensures
        r == (position != 0 && position != 1),
{
    let r = (position & !1i64) != 0;
    proof {
        assert((position & !1i64) != 0 <==> (position != 0 && position != 1)) by (bit_vector);
    }
    r
}

/// The chunk id of a page position: its top 26 bits.
pub fn getPageChunkId(position: i64) -> (r: i32)
    ensures
        r == (position as u64) / 0x40_0000_0000,
        0 <= r < 0x400_0000,
{
    let u = (position as u64) >> 38u64;
    proof {
        assert((position as u64) >> 38u64 == (position as u64) / 0x40_0000_0000) by (bit_vector);
        assert((position as u64) >> 38u64 < 0x400_0000) by (bit_vector);
    }
    u as i32
}

/// The offset packed in a table-of-content element: the element shifted right by
/// six bits (the sign kept), cut to 32 bits.
pub fn getPageOffset(tocElement: i64) -> (r: i32)
    ensures
        r == (tocElement >> 6i64) as i32,
{
    (tocElement >> 6i64) as i32
}

/// The largest length for an encoded page length: `PAGE_LARGE` for the code
/// 31, otherwise `2 + (code & 1)` shifted left by `(code >> 1) + 4` bits.
pub fn decodePageLength(encodedPageLength: i32) -> (r: i32)
    requires
        -8 <= encodedPageLength <= 55,
    ensures
        encodedPageLength == 31 ==> r == PAGE_LARGE,
        encodedPageLength != 31 ==> r == ((((2 + (encodedPageLength & 1)) as u32) << (((encodedPageLength >> 1)
            + 4) as u32)) as i32),
        0 <= encodedPageLength < 31 ==> r == (2 + encodedPageLength % 2) * pow2_of(
            (encodedPageLength / 2 + 4) as nat,
        ),
{
    if encodedPageLength == 31 {
        PAGE_LARGE
    } else {
        proof {
            let c = encodedPageLength;
            assert(-8 <= c <= 55 ==> -4 <= (c >> 1) <= 27) by (bit_vector);
            assert(0 <= c & 1 <= 1) by (bit_vector);
        }
        let m = 2 + (encodedPageLength & 1);
        let sh = (encodedPageLength >> 1) + 4;
        proof {
            let c = encodedPageLength;
            if 0 <= c < 31 {
                assert(c & 1 == c % 2) by (bit_vector)
                    requires
                        0 <= c,
                ;
                assert(c >> 1 == c / 2) by (bit_vector)
                    requires
                        0 <= c,
                ;
                lemma_shift_is_mul((m as u32), (sh as u32));
            }
        }
        ((m as u32) << (sh as u32)) as i32
    }
}

/// `2^n`.
pub open spec fn pow2_of(n: nat) -> int
    decreases n,
{
    if n == 0 {
        1
    } else {
        2 * pow2_of((n - 1) as nat)
    }
}

proof fn lemma_shift_is_mul(m: u32, sh: u32)
    requires
        2 <= m <= 3,
        4 <= sh <= 19,
    ensures
        ((m << sh) as i32) == m * pow2_of(sh as nat),
{
    let p = pow2_of(sh as nat);
    lemma_pow2_of_u32(sh);
    assert(m << sh == m * (1u32 << sh)) by (bit_vector)
        requires
            2 <= m <= 3,
            4 <= sh <= 19,
    ;
    assert(m * (1u32 << sh) < 0x8000_0000) by (bit_vector)
        requires
            2 <= m <= 3,
            4 <= sh <= 19,
    ;
}

proof fn lemma_pow2_of_u32(sh: u32)
    requires
        sh <= 30,
    ensures
        (1u32 << sh) == pow2_of(sh as nat),
    decreases sh,
{
    if sh == 0 {
        assert(1u32 << 0u32 == 1) by (bit_vector);
    } else {
        lemma_pow2_of_u32((sh - 1) as u32);
        let s1 = (sh - 1) as u32;
        assert(s1 < 30 ==> (1u32 << (s1 + 1) as u32) == 2 * (1u32 << s1)) by (bit_vector);
    }
}

/// The largest length of the page at `position`: the length encoded in bits 1 to 5.
pub fn getPageMaxLength(position: i64) -> (r: i32)
    ensures
        ({
            let code = ((position >> 1i64) & 31i64) as i32;
            &&& 0 <= code <= 31
            &&& code == 31 ==> r == PAGE_LARGE
            &&& code < 31 ==> r == (2 + code % 2) * pow2_of((code / 2 + 4) as nat)
        }),
{
    let code = ((position >> 1i64) & 31i64) as i32;
    proof {
        assert(0 <= ((position >> 1i64) & 31i64) <= 31) by (bit_vector);
    }
    decodePageLength(code)
}

/// The type of the page at `position` (leaf or node): its lowest bit.
pub fn getPageType(position: i64) -> (r: i32)
    ensures
        r == ((position as i32) & 1i32),
        r == 0 || r == 1,
{
    let r = (position as i32) & 1;
    proof {
        let p = position as i32;
        assert(p & 1i32 == 0 || p & 1i32 == 1) by (bit_vector);
    }
    r
}

/// A check value for `x`: its high and low halves combined by exclusive or, cut to 16 bits.
pub fn getCheckValue(x: i32) -> (r: i16)
    ensures
        r == (((x >> 16i32) ^ x) as i16),
{
    ((x >> 16i32) ^ x) as i16
}

/// `128^k`.
pub open spec fn pow128(k: nat) -> nat
    decreases k,
{
    if k == 0 {
        1
    } else {
        128 * pow128((k - 1) as nat)
    }
}

/// The number of bytes of a variable size number that starts at `s[0]`, of
/// at most `max` bytes: up to and including the first byte below 0x80.
pub open spec fn var_len(s: Seq<u8>, max: nat) -> nat
    decreases max,
{
    if max <= 1 || s.len() == 0 || s[0] < 0x80 {
        1
    } else {
        1 + var_len(s.subrange(1, s.len() as int), (max - 1) as nat)
    }
}

/// The sum of the low seven bits of the first `n` bytes of `s`, byte `i` weighed
/// by `128^i`.
pub open spec fn var_sum(s: Seq<u8>, n: nat) -> nat
    decreases n,
{
    if n == 0 {
        0
    } else {
        var_sum(s, (n - 1) as nat) + (s[n - 1] % 128) as nat * pow128((n - 1) as nat)
    }
}

/// The value of the variable size int that starts at `s[0]`.
pub open spec fn var_int_value(s: Seq<u8>) -> i32 {
    (var_sum(s, var_len(s, 5)) % 0x1_0000_0000) as u32 as i32
}

/// The value of the variable size long that starts at `s[0]`.
pub open spec fn var_long_value(s: Seq<u8>) -> i64 {
    (var_sum(s, var_len(s, 10)) % 0x1_0000_0000_0000_0000) as u64 as i64
}

/// The bytes of the buffer from its position on.
pub open spec fn rest_of(b: &ByteBuffer) -> Seq<u8> {
    b.bytes().subrange(b.pos(), b.cap())
}

proof fn lemma_var_len_unfold(s: Seq<u8>, i: int, m: nat)
    requires
        0 <= i < s.len(),
        m >= 2,
        s[i] >= 0x80,
    ensures
        var_len(s.subrange(i, s.len() as int), m) == 1 + var_len(s.subrange(i + 1, s.len() as int), (m - 1) as nat),
{
    let t = s.subrange(i, s.len() as int);
    assert(t[0] == s[i]);
    assert(t.subrange(1, t.len() as int) =~= s.subrange(i + 1, s.len() as int));
}

proof fn lemma_var_len_bounds(s: Seq<u8>, max: nat)
    requires
        max >= 1,
    ensures
        1 <= var_len(s, max) <= max,
    decreases max,
{
    if !(max <= 1 || s.len() == 0 || s[0] < 0x80) {
        lemma_var_len_bounds(s.subrange(1, s.len() as int), (max - 1) as nat);
    }
}

/// Reads a variable size int: seven bits per byte, low bits first, a byte
/// below 0x80 ending it, at most five bytes.
pub fn readVarInt(byteBuffer: &mut ByteBuffer) -> (r: i32)
    requires
        old(byteBuffer).wf(),
        old(byteBuffer).pos() + var_len(rest_of(old(byteBuffer)), 5) <= old(byteBuffer).lim(),
    ensures
        final(byteBuffer).wf(),
        r == var_int_value(rest_of(old(byteBuffer))),
        final(byteBuffer).pos() == old(byteBuffer).pos() + var_len(rest_of(old(byteBuffer)), 5),
        final(byteBuffer).lim() == old(byteBuffer).lim(),
        final(byteBuffer).cap() == old(byteBuffer).cap(),
        final(byteBuffer).bytes() == old(byteBuffer).bytes(),
{
    let v = read_var(byteBuffer, 5);
    (v % 0x1_0000_0000u128) as u32 as i32
}

/// Reads a variable size int whose first byte `b` (0x80 or above, as a signed
/// byte) has been read already.
pub fn readVarIntRest(byteBuffer: &mut ByteBuffer, b: i32) -> (r: i32)
    requires
        -128 <= b < 0,
        old(byteBuffer).wf(),
        old(byteBuffer).pos() + var_len(seq![(b + 256) as u8] + rest_of(old(byteBuffer)), 5) - 1
            <= old(byteBuffer).lim(),
    ensures
        ({
            let s = seq![(b + 256) as u8] + rest_of(old(byteBuffer));
            &&& r == var_int_value(s)
            &&& final(byteBuffer).pos() == old(byteBuffer).pos() + var_len(s, 5) - 1
        }),
        final(byteBuffer).wf(),
        final(byteBuffer).lim() == old(byteBuffer).lim(),
        final(byteBuffer).cap() == old(byteBuffer).cap(),
        final(byteBuffer).bytes() == old(byteBuffer).bytes(),
{
    let ghost s = seq![(b + 256) as u8] + rest_of(byteBuffer);
    let first = (b + 256) as u8;
    let v = read_var_from(byteBuffer, first, 5, Ghost(s));
    (v % 0x1_0000_0000u128) as u32 as i32
}

/// Reads a variable size long: seven bits per byte, low bits first, a byte
/// below 0x80 ending it, at most ten bytes.
pub fn readVarLong(bytebuffer: &mut ByteBuffer) -> (r: i64)
    requires
        old(bytebuffer).wf(),
        old(bytebuffer).pos() + var_len(rest_of(old(bytebuffer)), 10) <= old(bytebuffer).lim(),
    ensures
        final(bytebuffer).wf(),
        r == var_long_value(rest_of(old(bytebuffer))),
        final(bytebuffer).pos() == old(bytebuffer).pos() + var_len(rest_of(old(bytebuffer)), 10),
        final(bytebuffer).lim() == old(bytebuffer).lim(),
        final(bytebuffer).cap() == old(bytebuffer).cap(),
        final(bytebuffer).bytes() == old(bytebuffer).bytes(),
{
    let v = read_var(bytebuffer, 10);
    (v % 0x1_0000_0000_0000_0000u128) as u64 as i64
}

/// Whether a variable size number of at most `max` bytes that starts at the
/// position of `b` ends before its limit.
pub fn var_fits(b: &ByteBuffer, max: u64) -> (r: bool)
    requires
        b.wf(),
        1 <= max <= 10,
    ensures
        r == (b.pos() + var_len(rest_of(b), max as nat) <= b.lim()),
{
    proof {
        b.lemma_wf();
    }
    let data = b.getInternalSlice();
    let pos = b.getPosition();
    let lim = b.getLimit();
    let ghost s = rest_of(b);
    let mut j: usize = 0;
    proof {
        assert(s.subrange(0, s.len() as int) =~= s);
    }
    loop
        invariant
            b.wf(),
            data@ == b.bytes(),
            pos == b.pos(),
            lim == b.lim(),
            s == rest_of(b),
            s.len() == b.cap() - pos,
            1 <= max <= 10,
            j < max,
            j <= s.len(),
            var_len(s, max as nat) == j + var_len(s.subrange(j as int, s.len() as int), (max - j) as nat),
        decreases max - j,
    {
        proof {
            b.lemma_wf();
        }
        if j >= lim - pos {
            return false;
        }
        let c = data[pos + j];
        proof {
            assert(c == s[j as int]);
            assert(s.subrange(j as int, s.len() as int)[0] == c);
        }
        if c < 0x80 || j + 1 >= max as usize {
            return true;
        }
        proof {
            lemma_var_len_unfold(s, j as int, (max - j) as nat);
        }
        j = j + 1;
    }
}

fn read_var(b: &mut ByteBuffer, max: u64) -> (v: u128)
    requires
        old(b).wf(),
        1 <= max <= 10,
        old(b).pos() + var_len(rest_of(old(b)), max as nat) <= old(b).lim(),
    ensures
        final(b).wf(),
        v == var_sum(rest_of(old(b)), var_len(rest_of(old(b)), max as nat)),
        final(b).pos() == old(b).pos() + var_len(rest_of(old(b)), max as nat),
        final(b).lim() == old(b).lim(),
        final(b).cap() == old(b).cap(),
        final(b).bytes() == old(b).bytes(),
{
    proof {
        old(b).lemma_wf();
        lemma_var_len_bounds(rest_of(old(b)), max as nat);
    }
    let ghost s = rest_of(b);
    proof {
        assert(s == b.bytes().subrange(b.pos(), b.cap()));
        assert(0 <= b.pos());
        assert(b.pos() < b.lim());
        assert(b.lim() <= b.cap());
        assert(b.cap() == b.bytes().len());
        assert(s[0] == b.bytes()[b.pos()]);
    }
    let first = b.getByte();
    proof {
        assert(first == s[0]);
        assert(rest_of(b) =~= s.subrange(1, s.len() as int));
    }
    let ghost s1 = seq![first] + rest_of(b);
    proof {
        assert(s1 =~= s);
    }
    read_var_from(b, first, max, Ghost(s))
}

fn read_var_from(b: &mut ByteBuffer, first: u8, max: u64, Ghost(s): Ghost<Seq<u8>>) -> (v: u128)
    requires
        old(b).wf(),
        1 <= max <= 10,
        s == seq![first] + rest_of(old(b)),
        old(b).pos() + var_len(s, max as nat) - 1 <= old(b).lim(),
    ensures
        final(b).wf(),
        v == var_sum(s, var_len(s, max as nat)),
        final(b).pos() == old(b).pos() + var_len(s, max as nat) - 1,
        final(b).lim() == old(b).lim(),
        final(b).cap() == old(b).cap(),
        final(b).bytes() == old(b).bytes(),
{
    proof {
        old(b).lemma_wf();
        lemma_var_len_bounds(s, max as nat);
    }
    let ghost start = b.pos();
    let mut x: u128 = (first % 128) as u128;
    let mut mult: u128 = 128;
    let mut cur = first;
    let mut k: u64 = 1;
    proof {
        assert(s[0] == first);
        assert(s.subrange(0, s.len() as int) =~= s);
        assert(var_sum(s, 0) == 0);
        assert(pow128(0) == 1);
        assert(pow128(1) == 128);
    }
    while cur >= 0x80 && k < max
        invariant
            b.wf(),
            1 <= k <= max <= 10,
            s == seq![first] + old(b).bytes().subrange(start, old(b).cap()),
            start == old(b).pos(),
            0 <= start <= old(b).cap(),
            old(b).cap() == old(b).bytes().len(),
            b.pos() == start + k - 1,
            b.lim() == old(b).lim(),
            b.cap() == old(b).cap(),
            b.bytes() == old(b).bytes(),
            start + var_len(s, max as nat) - 1 <= b.lim(),
            k <= s.len(),
            cur == s[k - 1],
            var_len(s, max as nat) == (k - 1) + var_len(s.subrange(k - 1, s.len() as int), (max - k + 1) as nat),
            x == var_sum(s, k as nat),
            k < max ==> mult == pow128(k as nat),
            x < pow128(k as nat),
        decreases max - k,
    {
        proof {
            lemma_var_len_unfold(s, k - 1, (max - k + 1) as nat);
            lemma_var_len_bounds(s.subrange(k as int, s.len() as int), (max - k) as nat);
            b.lemma_wf();
            assert(var_len(s, max as nat) >= k + 1);
            assert(b.pos() < b.lim());
            assert(s.len() == 1 + old(b).cap() - start);
            assert(s[k as int] == b.bytes()[b.pos()]);
        }
        let c = b.getByte();
        proof {
            let d = (c % 128) as nat;
            assert(x + d * mult < pow128((k + 1) as nat)) by (nonlinear_arith)
                requires
                    x < mult,
                    d < 128,
                    pow128((k + 1) as nat) == 128 * mult,
            ;
            assert(mult <= pow128(9)) by {
                lemma_pow128_mono(k as nat, 9);
            }
            assert(var_sum(s, (k + 1) as nat) == x + d * pow128(k as nat));
            assert(pow128(9) == 9223372036854775808) by {
                reveal_with_fuel(pow128, 10);
            }
            assert(d * mult <= 127 * 9223372036854775808) by (nonlinear_arith)
                requires
                    d < 128,
                    mult <= 9223372036854775808,
            ;
        }
        x = x + ((c % 128) as u128) * mult;
        if k + 1 < max {
            proof {
                lemma_pow128_mono(k as nat, 8);
                assert(pow128(8) == 72057594037927936) by {
                    reveal_with_fuel(pow128, 9);
                }
            }
            mult = mult * 128;
        }
        cur = c;
        k = k + 1;
    }
    x
}

proof fn lemma_pow128_mono(a: nat, b: nat)
    requires
        a <= b,
    ensures
        pow128(a) <= pow128(b),
    decreases b,
{
    if a < b {
        lemma_pow128_mono(a, (b - 1) as nat);
    }
}

/// The index of the first `c` in `s` at `i` or later.
pub open spec fn index_from(s: Seq<char>, i: int, c: char) -> Option<int>
    decreases s.len() - i,
{
    if i < 0 || i >= s.len() {
        None
    } else if s[i] == c {
        Some(i)
    } else {
        index_from(s, i + 1, c)
    }
}

/// Reads an unquoted stretch of a map value from `s[i]` on, having read `acc`:
/// up to a comma (consumed) or the end; a double quote opens a quoted stretch.
/// Gives the value and the index after it, or `None` on a dangling escape.
pub open spec fn value_plain(s: Seq<char>, i: int, acc: Seq<char>) -> Option<(Seq<char>, int)>
    decreases s.len() - i,
{
    if i < 0 || i >= s.len() {
        Some((acc, i))
    } else if s[i] == ',' {
        Some((acc, i + 1))
    } else if s[i] == '"' {
        value_quoted(s, i + 1, acc)
    } else {
        value_plain(s, i + 1, acc.push(s[i]))
    }
}

/// Reads a quoted stretch of a map value from `s[i]` on: a backslash takes the
/// next character as is, a double quote closes the stretch.
pub open spec fn value_quoted(s: Seq<char>, i: int, acc: Seq<char>) -> Option<(Seq<char>, int)>
    decreases s.len() - i,
{
    if i < 0 || i >= s.len() {
        Some((acc, i))
    } else if s[i] == '\\' {
        if i + 1 == s.len() {
            None
        } else {
            value_quoted(s, i + 2, acc.push(s[i + 1]))
        }
    } else if s[i] == '"' {
        value_plain(s, i + 1, acc)
    } else {
        value_quoted(s, i + 1, acc.push(s[i]))
    }
}

pub proof fn lemma_value_advances(s: Seq<char>, i: int, acc: Seq<char>, quoted: bool)
    requires
        0 <= i,
    ensures
        quoted ==> (value_quoted(s, i, acc) matches Some(r) ==> r.1 >= i && (i <= s.len() ==> r.1 <= s.len())),
        !quoted ==> (value_plain(s, i, acc) matches Some(r) ==> r.1 >= i && (i <= s.len() ==> r.1 <= s.len())),
    decreases s.len() - i,
{
    if i < s.len() {
        if quoted {
            if s[i] == '\\' && i + 1 != s.len() {
                lemma_value_advances(s, i + 2, acc.push(s[i + 1]), true);
            } else if s[i] == '"' {
                lemma_value_advances(s, i + 1, acc, false);
            } else if s[i] != '\\' {
                lemma_value_advances(s, i + 1, acc.push(s[i]), true);
            }
        } else {
            if s[i] == '"' {
                lemma_value_advances(s, i + 1, acc, true);
            } else if s[i] != ',' {
                lemma_value_advances(s, i + 1, acc.push(s[i]), false);
            }
        }
    }
}

pub proof fn lemma_index_from(s: Seq<char>, i: int, c: char)
    requires
        0 <= i,
    ensures
        index_from(s, i, c) matches Some(j) ==> i <= j < s.len() && s[j] == c,
    decreases s.len() - i,
{
    if i < s.len() && s[i] != c {
        lemma_index_from(s, i + 1, c);
    }
}

/// The entries of a serialized map from `s[i]` on, added to `m`: `key:value`
/// pairs separated by commas; `None` where a key has no colon or a value ends
/// in a dangling escape.
pub open spec fn parse_map_from(s: Seq<char>, i: int, m: Map<Seq<char>, Seq<char>>) -> Option<Map<Seq<char>, Seq<char>>>
    decreases s.len() - i,
{
    if i < 0 || i >= s.len() {
        Some(m)
    } else {
        match index_from(s, i, ':') {
            None => None,
            Some(colon) => {
                match value_plain(s, colon + 1, Seq::empty()) {
                    None => None,
                    Some(r) => {
                        proof {
                            lemma_index_from(s, i, ':');
                            lemma_value_advances(s, colon + 1, Seq::empty(), false);
                        }
                        parse_map_from(s, r.1, m.insert(s.subrange(i, colon), r.0))
                    },
                }
            },
        }
    }
}

/// The map that the text `s` serializes, if it is one.
pub open spec fn parsed_map(s: Seq<char>) -> Option<Map<Seq<char>, Seq<char>>> {
    parse_map_from(s, 0, Map::empty())
}

/// How a quoted map value writes the character `c`: with a backslash before
/// it where it is `"` or `\`.
pub open spec fn escaped_char(c: char) -> Seq<char> {
    if c == '"' || c == '\\' {
        seq!['\\', c]
    } else {
        seq![c]
    }
}

/// The characters of `v`, each written as `escaped_char` writes it.
pub open spec fn escaped(v: Seq<char>) -> Seq<char>
    decreases v.len(),
{
    if v.len() == 0 {
        seq![]
    } else {
        escaped_char(v[0]) + escaped(v.drop_first())
    }
}

/// The value `v` written between double quotes, with its quotes and
/// backslashes escaped.
pub open spec fn quoted(v: Seq<char>) -> Seq<char> {
    seq!['"'] + escaped(v) + seq!['"']
}

/// Reading a quoted stretch that holds `v` escaped, up to its closing quote,
/// gives `v` and goes on after the quote.
proof fn lemma_read_escaped(s: Seq<char>, i: int, acc: Seq<char>, v: Seq<char>)
    requires
        0 <= i,
        i + escaped(v).len() < s.len(),
        s.subrange(i, i + escaped(v).len()) == escaped(v),
        s[i + escaped(v).len()] == '"',
    ensures
        value_quoted(s, i, acc) == value_plain(s, i + escaped(v).len() + 1, acc + v),
    decreases v.len(),
{
    if v.len() == 0 {
        assert(acc + v =~= acc);
    } else {
        let c = v[0];
        let rest = v.drop_first();
        let e = escaped_char(c);
        let n = escaped(rest).len() as int;
        assert(escaped(v) == e + escaped(rest));
        assert(s.subrange(i, i + escaped(v).len())[0] == s[i]);
        assert(acc.push(c) + rest =~= acc + v);
        if c == '"' || c == '\\' {
            assert(s.subrange(i, i + escaped(v).len())[1] == s[i + 1]);
            assert(s[i] == '\\' && s[i + 1] == c);
            assert(s.subrange(i + 2, i + 2 + n) =~= s.subrange(i, i + escaped(v).len()).subrange(2, 2 + n));
            assert((e + escaped(rest)).subrange(2, 2 + n) =~= escaped(rest));
            lemma_read_escaped(s, i + 2, acc.push(c), rest);
        } else {
            assert(s[i] == c);
            assert(s.subrange(i + 1, i + 1 + n) =~= s.subrange(i, i + escaped(v).len()).subrange(1, 1 + n));
            assert((e + escaped(rest)).subrange(1, 1 + n) =~= escaped(rest));
            lemma_read_escaped(s, i + 1, acc.push(c), rest);
        }
    }
}

/// The first `:` from `j` on in `k`, then `:`, then `t` is the one after `k`.
proof fn lemma_first_colon(k: Seq<char>, t: Seq<char>, j: int)
    requires
        0 <= j <= k.len(),
        forall|x: int| 0 <= x < k.len() ==> #[trigger] k[x] != ':',
    ensures
        index_from(k + seq![':'] + t, j, ':') == Some(k.len() as int),
    decreases k.len() - j,
{
    let s = k + seq![':'] + t;
    if j < k.len() {
        assert(s[j] == k[j]);
        lemma_first_colon(k, t, j + 1);
    } else {
        assert(s[j] == ':');
    }
}

/// A quoted value reads back as itself: the map text `k:` followed by `v`
/// in double quotes, its quotes and backslashes escaped, holds exactly `v`
/// under `k` (an escaping backslash is never part of the value).
pub proof fn law_quoted_value_round_trip(k: Seq<char>, v: Seq<char>)
    requires
        forall|x: int| 0 <= x < k.len() ==> #[trigger] k[x] != ':',
    ensures
        parsed_map(k + seq![':'] + quoted(v)) == Some(Map::<Seq<char>, Seq<char>>::empty().insert(k, v)),
{
    let s = k + seq![':'] + quoted(v);
    let c = k.len() as int;
    let n = escaped(v).len() as int;
    lemma_first_colon(k, quoted(v), 0);
    assert(s.len() == c + 1 + n + 2);
    assert(s[c + 1] == '"');
    assert(s[c + 2 + n] == '"');
    assert(s.subrange(c + 2, c + 2 + n) =~= escaped(v)) by {
        assert forall|x: int| 0 <= x < n implies #[trigger] s.subrange(c + 2, c + 2 + n)[x] == escaped(v)[x] by {
            assert(s[c + 2 + x] == quoted(v)[1 + x]);
        }
    }
    lemma_read_escaped(s, c + 2, Seq::empty(), v);
    assert(Seq::<char>::empty() + v =~= v);
    assert(value_plain(s, c + 1, Seq::empty()) == Some((v, s.len() as int)));
    assert(s.subrange(0, c) =~= k);
    let m = Map::<Seq<char>, Seq<char>>::empty().insert(k, v);
    assert(parse_map_from(s, s.len() as int, m) == Some(m));
    assert(parse_map_from(s, 0, Map::empty()) == parse_map_from(s, s.len() as int, m));
}

/// The message parameter of the error for a text that is no map.
pub open spec fn not_a_map_param(s: Seq<char>) -> Seq<char> {
    "not a map: "@ + s
}

fn parse_map_value(s: &Vec<char>, a: usize) -> (r: Option<(Vec<char>, usize)>)
    ensures
        match value_plain(s@, a as int, Seq::empty()) {
            Some(v) => r matches Some(x) && x.0@ == v.0 && x.1 == v.1,
            None => r is None,
        },
{
    let size = s.len();
    let mut result: Vec<char> = Vec::new();
    let mut i = a;
    let mut quoted = false;
    let ghost target = value_plain(s@, a as int, Seq::empty());
    while i < size
        invariant
            size == s@.len(),
            target == value_plain(s@, a as int, Seq::empty()),
            target == (if quoted {
                value_quoted(s@, i as int, result@)
            } else {
                value_plain(s@, i as int, result@)
            }),
        decreases size - i,
    {
        let c = s[i];
        i = i + 1;
        if !quoted {
            if c == ',' {
                return Some((result, i));
            }
            if c == '"' {
                quoted = true;
            } else {
                result.push(c);
            }
        } else {
            if c == '\\' {
                if i == size {
                    return None;
                }
                let d = s[i];
                i = i + 1;
                result.push(d);
            } else if c == '"' {
                quoted = false;
            } else {
                result.push(c);
            }
        }
    }
    Some((result, i))
}

/// Reads a serialized map: `key:value` pairs separated by commas, where a value
/// may hold double-quoted stretches with backslash escapes. A later pair with
/// the same key replaces an earlier one. A key without a colon, or a value
/// ending in a dangling escape, is the error `FILE_CORRUPTED_1`.
pub fn parseMap(s: &str) -> (r: Result<Properties, DbError>)
    ensures
        match parsed_map(s@) {
            Some(m) => r matches Ok(p) && p.wf() && p.map() == m,
            None => r matches Err(e) && is_error(e, error_code::FILE_CORRUPTED_1, seq![not_a_map_param(s@)]),
        },
{
    let c = chars_of(s);
    let size = c.len();
    let mut map = Properties::new();
    let mut a: usize = 0;
    while a < size
        invariant
            size == c@.len(),
            c@ == s@,
            map.wf(),
            parsed_map(s@) == parse_map_from(s@, a as int, map.map()),
        decreases size - a,
    {
        let start_key = a;
        let mut colon: usize = a;
        let ghost found = index_from(c@, a as int, ':');
        while colon < size && c[colon] != ':'
            invariant
                size == c@.len(),
                start_key <= colon <= size,
                found == index_from(c@, colon as int, ':'),
            decreases size - colon,
        {
            colon = colon + 1;
        }
        if colon == size {
            let m = str_concat("not a map: ", s);
            return Err(DbError::get(error_code::FILE_CORRUPTED_1, one_param(m.as_str())));
        }
        proof {
            lemma_value_advances(c@, colon + 1, Seq::empty(), false);
        }
        let key = chars_slice(c.as_slice(), start_key, colon);
        match parse_map_value(&c, colon + 1) {
            None => {
                let m = str_concat("not a map: ", s);
                return Err(DbError::get(error_code::FILE_CORRUPTED_1, one_param(m.as_str())));
            },
            Some((value, next)) => {
                proof {
                    lemma_index_from(c@, a as int, ':');
                    assert(next > a);
                }
                map.insert(string_of(key.as_slice()), string_of(value.as_slice()));
                a = next;
            },
        }
    }
    Ok(map)
}

/// The hexadecimal number stored under `key`, or the default where there is
/// none; `None` where the text does not read as an `i64`.
pub open spec fn hex_long_of(map: Map<Seq<char>, Seq<char>>, key: Seq<char>, default_value: i64) -> Option<i64> {
    if !map.contains_key(key) {
        Some(default_value)
    } else {
        match parse_radix(map[key], 16) {
            Some(v) => if i64::MIN <= v <= i64::MAX {
                Some(v as i64)
            } else {
                None
            },
            None => None,
        }
    }
}

/// The message parameter of the error for a value that is no hexadecimal number.
pub open spec fn hex_error_param(value: Seq<char>) -> Seq<char> {
    "error parsing the value "@ + value
}

/// The error of a value under `key` that is no hexadecimal number.
pub open spec fn bad_value(map: Map<Seq<char>, Seq<char>>, key: Seq<char>) -> (i32, Seq<Seq<char>>) {
    (error_code::FILE_CORRUPTED_1, seq![hex_error_param(map[key])])
}

/// Reads the hexadecimal `i64` stored under `key`, or gives the default where
/// there is none. A value that does not read is the error `FILE_CORRUPTED_1`.
pub fn readHexIntOrLong(map: &Properties, key: &str, defaultValue: i64) -> (r: Result<i64, DbError>)
    requires
        map.wf(),
    ensures
        match hex_long_of(map.map(), key@, defaultValue) {
            Some(v) => r == Ok::<i64, DbError>(v),
            None => r matches Err(e) && is_error(
                e,
                error_code::FILE_CORRUPTED_1,
                seq![hex_error_param(map.map()[key@])],
            ),
        },
{
    match map.get(key) {
        None => Ok(defaultValue),
        Some(value) => {
            let c = chars_of(value.as_str());
            match parse_i64_radix(c.as_slice(), 16) {
                Some(v) => Ok(v),
                None => {
                    let m = str_concat("error parsing the value ", value.as_str());
                    Err(DbError::get(error_code::FILE_CORRUPTED_1, one_param(m.as_str())))
                },
            }
        },
    }
}

/// Reads the hexadecimal number stored under `key` as an `i32` (its low 32
/// bits), or gives the default where there is none. A value that does not
/// read is the error `FILE_CORRUPTED_1`.
pub fn readHexInt(map: &Properties, key: &str, defaultValue: i32) -> (r: Result<i32, DbError>)
    requires
        map.wf(),
    ensures
        match hex_long_of(map.map(), key@, defaultValue as i64) {
            Some(v) => r == Ok::<i32, DbError>(v as i32),
            None => r matches Err(e) && is_error(
                e,
                error_code::FILE_CORRUPTED_1,
                seq![hex_error_param(map.map()[key@])],
            ),
        },
{
    match readHexIntOrLong(map, key, defaultValue as i64) {
        Ok(v) => Ok(v as i32),
        Err(e) => Err(e),
    }
}

/// The number of bytes of the character that starts with byte `x` in the
/// modified UTF-8 form of stored strings.
pub open spec fn unit_len(x: u8) -> nat {
    if x < 0x80 {
        1
    } else if x >= 0xe0 {
        3
    } else {
        2
    }
}

/// Whether `s` starts with `count` complete characters in modified UTF-8.
pub open spec fn mutf8_fits(s: Seq<u8>, count: nat) -> bool
    decreases count,
{
    count == 0 || (s.len() > 0 && s.len() >= unit_len(s[0]) && mutf8_fits(
        s.subrange(unit_len(s[0]) as int, s.len() as int),
        (count - 1) as nat,
    ))
}

/// The number of bytes of the first `count` characters of `s`.
pub open spec fn mutf8_len(s: Seq<u8>, count: nat) -> nat
    decreases count,
{
    if count == 0 || s.len() == 0 || s.len() < unit_len(s[0]) {
        0
    } else {
        unit_len(s[0]) + mutf8_len(s.subrange(unit_len(s[0]) as int, s.len() as int), (count - 1) as nat)
    }
}

/// The UTF-16 code unit of the character at the start of `s`.
pub open spec fn mutf8_unit(s: Seq<u8>) -> u16 {
    let x = s[0];
    if x < 0x80 {
        x as u16
    } else if x >= 0xe0 {
        ((x % 16) * 4096 + (s[1] % 64) * 64 + s[2] % 64) as u16
    } else {
        ((x % 32) * 64 + s[1] % 64) as u16
    }
}

/// The UTF-16 code units of the first `count` characters of `s`.
pub open spec fn mutf8_units(s: Seq<u8>, count: nat) -> Seq<u16>
    decreases count,
{
    if count == 0 || s.len() == 0 || s.len() < unit_len(s[0]) {
        Seq::empty()
    } else {
        seq![mutf8_unit(s)] + mutf8_units(s.subrange(unit_len(s[0]) as int, s.len() as int), (count - 1) as nat)
    }
}

/// The characters that UTF-16 code units decode to, each unit that is not
/// part of a surrogate pair (a lone surrogate) replaced by U+FFFD: a unit
/// outside the surrogates is its own character; a leading surrogate followed
/// by a trailing one is the character they encode together; any other
/// surrogate is a replacement character, and decoding goes on with the next
/// unit.
pub open spec fn utf16_lossy(units: Seq<u16>) -> Seq<char>
    decreases units.len(),
{
    if units.len() == 0 {
        Seq::empty()
    } else {
        let u = units[0] as int;
        if u < 0xD800 || u > 0xDFFF {
            seq![u as char] + utf16_lossy(units.drop_first())
        } else if u <= 0xDBFF && units.len() > 1 && 0xDC00 <= units[1] <= 0xDFFF {
            seq![(0x10000 + (u - 0xD800) * 0x400 + (units[1] - 0xDC00)) as char] + utf16_lossy(
                units.subrange(2, units.len() as int),
            )
        } else {
            seq!['\u{FFFD}'] + utf16_lossy(units.drop_first())
        }
    }
}

/// Calls `String::from_utf16_lossy`: the string that the UTF-16 code units
/// decode to, each lone surrogate replaced by U+FFFD, as the documentation of
/// `char::decode_utf16` and `String::from_utf16_lossy` describes it (see
/// `utf16_lossy`).
#[verifier::external_body]
fn string_from_utf16_lossy(units: &[u16]) -> (s: String)
    ensures
        s@ == utf16_lossy(units@),
{
    String::from_utf16_lossy(units)
}

/// Reads `len` characters stored in modified UTF-8 (one to three bytes each)
/// and gives the string of their UTF-16 code units.
pub fn readString2(byteBuffer: &mut ByteBuffer, len: usize) -> (r: String)
    requires
        old(byteBuffer).wf(),
        mutf8_fits(rest_of(old(byteBuffer)), len as nat),
        old(byteBuffer).pos() + mutf8_len(rest_of(old(byteBuffer)), len as nat) <= old(byteBuffer).lim(),
    ensures
        final(byteBuffer).wf(),
        r@ == utf16_lossy(mutf8_units(rest_of(old(byteBuffer)), len as nat)),
        final(byteBuffer).pos() == old(byteBuffer).pos() + mutf8_len(rest_of(old(byteBuffer)), len as nat),
        final(byteBuffer).lim() == old(byteBuffer).lim(),
        final(byteBuffer).cap() == old(byteBuffer).cap(),
        final(byteBuffer).bytes() == old(byteBuffer).bytes(),
{
    proof {
        old(byteBuffer).lemma_wf();
    }
    let ghost s0 = rest_of(byteBuffer);
    let ghost start = byteBuffer.pos();
    let mut chars: Vec<u16> = Vec::new();
    let mut a: usize = 0;
    while a < len
        invariant
            byteBuffer.wf(),
            0 <= start <= byteBuffer.pos() <= byteBuffer.lim(),
            byteBuffer.lim() == old(byteBuffer).lim(),
            byteBuffer.cap() == old(byteBuffer).cap(),
            byteBuffer.bytes() == old(byteBuffer).bytes(),
            byteBuffer.cap() == byteBuffer.bytes().len(),
            s0 == old(byteBuffer).bytes().subrange(start, old(byteBuffer).cap()),
            a <= len,
            mutf8_fits(rest_of(byteBuffer), (len - a) as nat),
            byteBuffer.pos() + mutf8_len(rest_of(byteBuffer), (len - a) as nat) == start + mutf8_len(s0, len as nat),
            start + mutf8_len(s0, len as nat) <= byteBuffer.lim(),
            chars@ + mutf8_units(rest_of(byteBuffer), (len - a) as nat) == mutf8_units(s0, len as nat),
        decreases len - a,
    {
        proof {
            byteBuffer.lemma_wf();
        }
        let ghost t = rest_of(byteBuffer);
        let ghost l = unit_len(t[0]);
        let ghost t2 = t.subrange(l as int, t.len() as int);
        proof {
            assert(t[0] == byteBuffer.bytes()[byteBuffer.pos()]);
            assert(mutf8_len(t, (len - a) as nat) == l + mutf8_len(t2, (len - a - 1) as nat));
            assert(mutf8_units(t, (len - a) as nat) == seq![mutf8_unit(t)] + mutf8_units(t2, (len - a - 1) as nat));
            assert(t.len() >= l);
        }
        let x = byteBuffer.getByte();
        let unit: u16 = if x < 0x80 {
            x as u16
        } else if x >= 0xe0 {
            proof {
                assert(t[1] == byteBuffer.bytes()[byteBuffer.pos()]);
            }
            let b2 = byteBuffer.getByte();
            proof {
                assert(t[2] == byteBuffer.bytes()[byteBuffer.pos()]);
            }
            let b3 = byteBuffer.getByte();
            ((x % 16) as u16) * 4096 + ((b2 % 64) as u16) * 64 + (b3 % 64) as u16
        } else {
            proof {
                assert(t[1] == byteBuffer.bytes()[byteBuffer.pos()]);
            }
            let b2 = byteBuffer.getByte();
            ((x % 32) as u16) * 64 + (b2 % 64) as u16
        };
        proof {
            assert(rest_of(byteBuffer) =~= t2);
            assert(unit == mutf8_unit(t));
        }
        chars.push(unit);
        proof {
            assert(chars@ + mutf8_units(t2, (len - a - 1) as nat) =~= chars@.drop_last() + mutf8_units(
                t,
                (len - a) as nat,
            ));
        }
        a = a + 1;
    }
    proof {
        assert(chars@ + Seq::<u16>::empty() =~= chars@);
    }
    string_from_utf16_lossy(chars.as_slice())
}

/// Reads a string stored as its length (a variable size int) followed by its
/// characters in modified UTF-8.
pub fn readString1(byteBuffer: &mut ByteBuffer) -> (r: String)
    requires
        old(byteBuffer).wf(),
        ({
            let s = rest_of(old(byteBuffer));
            let n = var_len(s, 5);
            let len = var_int_value(s);
            let t = s.subrange(n as int, s.len() as int);
            &&& old(byteBuffer).pos() + n <= old(byteBuffer).lim()
            &&& len >= 0
            &&& mutf8_fits(t, len as nat)
            &&& old(byteBuffer).pos() + n + mutf8_len(t, len as nat) <= old(byteBuffer).lim()
        }),
    ensures
        ({
            let s = rest_of(old(byteBuffer));
            let n = var_len(s, 5);
            let len = var_int_value(s);
            let t = s.subrange(n as int, s.len() as int);
            &&& r@ == utf16_lossy(mutf8_units(t, len as nat))
            &&& final(byteBuffer).pos() == old(byteBuffer).pos() + n + mutf8_len(t, len as nat)
        }),
        final(byteBuffer).wf(),
        final(byteBuffer).lim() == old(byteBuffer).lim(),
        final(byteBuffer).cap() == old(byteBuffer).cap(),
        final(byteBuffer).bytes() == old(byteBuffer).bytes(),
{
    proof {
        old(byteBuffer).lemma_wf();
    }
    let ghost s = rest_of(byteBuffer);
    let len = readVarInt(byteBuffer);
    proof {
        byteBuffer.lemma_wf();
        assert(rest_of(byteBuffer) =~= s.subrange(var_len(s, 5) as int, s.len() as int));
    }
    readString2(byteBuffer, len as usize)
}

} // verus!
