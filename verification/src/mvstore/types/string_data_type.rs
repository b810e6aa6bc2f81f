use vstd::prelude::*;
use vstd::utf8::*;
use vstd::string::StringSliceAdditionalSpecFns;
use std::cmp::Ordering;
use crate::h2_rust_common::byte_buffer::ByteBuffer;
use crate::h2_rust_common::h2_rust_type::{H2RustType, string_value};
use crate::util::chars::chars_of;

verus! {

/// Whether `a` comes before `b` in the lexicographic order of their characters
/// (a proper prefix comes first).
pub open spec fn lex_less(a: Seq<char>, b: Seq<char>) -> bool
    decreases a.len(),
{
    if a.len() == 0 {
        b.len() > 0
    } else if b.len() == 0 {
        false
    } else if a[0] != b[0] {
        a[0] < b[0]
    } else {
        lex_less(a.drop_first(), b.drop_first())
    }
}

/// Of two texts, exactly one of these holds: the first comes first, they are
/// equal, the second comes first.
pub proof fn lemma_lex_trichotomy(a: Seq<char>, b: Seq<char>)
    ensures
        lex_less(a, b) || a == b || lex_less(b, a),
        !(lex_less(a, b) && lex_less(b, a)),
        !(lex_less(a, b) && a == b),
    decreases a.len(),
{
    if a.len() > 0 && b.len() > 0 && a[0] == b[0] {
        lemma_lex_trichotomy(a.drop_first(), b.drop_first());
        if a.drop_first() == b.drop_first() {
            assert(a =~= seq![a[0]] + a.drop_first());
            assert(b =~= seq![b[0]] + b.drop_first());
        }
    }
    if a.len() == 0 && b.len() == 0 {
        assert(a =~= b);
    }
}

/// The lexicographic order is transitive.
pub proof fn lemma_lex_transitive(a: Seq<char>, b: Seq<char>, c: Seq<char>)
    requires
        lex_less(a, b),
        lex_less(b, c),
    ensures
        lex_less(a, c),
    decreases a.len(),
{
    if a.len() > 0 && b.len() > 0 && c.len() > 0 && a[0] == b[0] && b[0] == c[0] {
        lemma_lex_transitive(a.drop_first(), b.drop_first(), c.drop_first());
    }
}

/// Whether the first `size` values of `storage` are strings in ascending
/// order.
pub open spec fn sorted_strings(storage: Seq<H2RustType>, size: i32) -> bool {
    &&& 0 <= size <= storage.len()
    &&& forall|i: int| 0 <= i < size ==> #[trigger] storage[i] is String
    &&& forall|i: int, j: int|
        0 <= i < j < size ==> !lex_less(string_value(#[trigger] storage[j]), string_value(#[trigger] storage[i]))
}


/// The order of two texts: -1 where `a` comes first, 0 where they are equal,
/// 1 where `b` comes first.
fn compare_chars(a: &str, b: &str) -> (r: i32)
    ensures
        (r == -1) == lex_less(a@, b@),
        (r == 0) == (a@ == b@),
        (r == 1) == lex_less(b@, a@),
        r == -1 || r == 0 || r == 1,
{
    proof {
        lemma_lex_trichotomy(a@, b@);
    }
    let x = chars_of(a);
    let y = chars_of(b);
    let ghost sa = x@;
    let ghost sb = y@;
    let mut i: usize = 0;
    proof {
        assert(sa.subrange(0, 0) =~= sb.subrange(0, 0));
        assert(sa.subrange(0, sa.len() as int) =~= sa);
        assert(sb.subrange(0, sb.len() as int) =~= sb);
    }
    while i < x.len() && i < y.len()
        invariant
            x@ == sa,
            y@ == sb,
            sa == a@,
            sb == b@,
            i <= sa.len(),
            i <= sb.len(),
            sa.subrange(0, i as int) == sb.subrange(0, i as int),
            lex_less(sa, sb) == lex_less(sa.subrange(i as int, sa.len() as int), sb.subrange(i as int, sb.len() as int)),
            lex_less(sb, sa) == lex_less(sb.subrange(i as int, sb.len() as int), sa.subrange(i as int, sa.len() as int)),
        decreases sa.len() - i,
    {
        let ghost ta = sa.subrange(i as int, sa.len() as int);
        let ghost tb = sb.subrange(i as int, sb.len() as int);
        if x[i] != y[i] {
            proof {
                assert(ta[0] == x[i as int]);
                assert(tb[0] == y[i as int]);
                if sa == sb {
                    assert(x[i as int] == y[i as int]);
                }
            }
            if x[i] < y[i] {
                proof {
                    assert(lex_less(ta, tb));
                    assert(!lex_less(tb, ta));
                }
                return -1;
            } else {
                proof {
                    assert(lex_less(tb, ta));
                    assert(!lex_less(ta, tb));
                }
                return 1;
            }
        }
        proof {
            assert(ta.drop_first() =~= sa.subrange(i + 1, sa.len() as int));
            assert(tb.drop_first() =~= sb.subrange(i + 1, sb.len() as int));
            assert(sa.subrange(0, i + 1) =~= sa.subrange(0, i as int).push(x[i as int]));
            assert(sb.subrange(0, i + 1) =~= sb.subrange(0, i as int).push(y[i as int]));
        }
        i = i + 1;
    }
    let ghost ta = sa.subrange(i as int, sa.len() as int);
    let ghost tb = sb.subrange(i as int, sb.len() as int);
    if x.len() == y.len() {
        proof {
            assert(sa =~= sb);
        }
        0
    } else if i == x.len() {
        proof {
            assert(ta.len() == 0 && tb.len() > 0);
            if sa == sb {
                assert(sa.len() == sb.len());
            }
        }
        -1
    } else {
        proof {
            assert(tb.len() == 0 && ta.len() > 0);
            if sa == sb {
                assert(sa.len() == sb.len());
            }
        }
        1
    }
}

/// The value at index `x`.
pub open spec fn at(storage: Seq<H2RustType>, x: i32) -> H2RustType {
    storage[x as int]
}

/// `x` as an index.
fn index_of(x: i32) -> (r: usize)
    requires
        x >= 0,
    ensures
        r == x,
{
    x as usize
}

/// The type of string keys and values of the maps of a store.
pub struct StringDataType {}

impl StringDataType {
    /// Compares two string values by the lexicographic order of their
    /// characters (the order of their UTF-8 bytes).
    pub fn compare(&self, a: &H2RustType, b: &H2RustType) -> (r: Ordering)
        requires
            a is String,
            b is String,
        ensures
            (r == Ordering::Less) == lex_less(string_value(*a), string_value(*b)),
            (r == Ordering::Equal) == (string_value(*a) == string_value(*b)),
            (r == Ordering::Greater) == lex_less(string_value(*b), string_value(*a)),
    {
        let c = compare_chars(a.castAsStringRef().as_str(), b.castAsStringRef().as_str());
        if c < 0 {
            Ordering::Less
        } else if c == 0 {
            Ordering::Equal
        } else {
            Ordering::Greater
        }
    }

    /// The memory that a string value takes: 24 bytes and 2 per byte of its
    /// UTF-8 form.
    pub fn get_memory(&self, obj: &H2RustType) -> (r: i32)
        requires
            obj is String,
            24 + 2 * encode_utf8(string_value(*obj)).len() <= i32::MAX,
        ensures
            r == 24 + 2 * encode_utf8(string_value(*obj)).len(),
    {
        let s = obj.castAsStringRef().as_str();
        proof {
            assert(s.spec_bytes() == encode_utf8(s@));
        }
        let n = s.as_bytes().len();
        24 + 2 * (n as i32)
    }

    /// Searches `key` among the first `size` values of `storage`, which are
    /// strings in ascending order, starting at `initial_guess - 1` where that
    /// lies among them, else in the middle. Gives the index of a value equal
    /// to `key`, or, where there is none, `-(p + 1)` for the index `p` at
    /// which `key` would be inserted: all values before `p` come before `key`,
    /// all from `p` on come after it.
    pub fn binary_search(&self, key: &H2RustType, storage: &Vec<H2RustType>, size: i32, initial_guess: i32) -> (r: i32)
        requires
            key is String,
            sorted_strings(storage@, size),
        ensures
            r >= 0 ==> r < size && string_value(at(storage@, r)) == string_value(*key),
            r < 0 ==> ({
                let p = -r - 1;
                &&& 0 <= p <= size
                &&& forall|i: int| 0 <= i < p ==> lex_less(string_value(#[trigger] storage@[i]), string_value(*key))
                &&& forall|i: int|
                    p <= i < size ==> lex_less(string_value(*key), string_value(#[trigger] storage@[i]))
            }),
    {
        let mut low: i32 = 0;
        let mut high: i32 = size - 1;
        let mut x: i32 = if high >= 0 {
            high / 2
        } else {
            0
        };
        if initial_guess >= 1 && initial_guess - 1 <= high {
            x = initial_guess - 1;
        }
        let ghost k = string_value(*key);
        while low <= high
            invariant
                key is String,
                k == string_value(*key),
                sorted_strings(storage@, size),
                0 <= low,
                high < size,
                low <= high + 1,
                low <= high ==> low <= x <= high,
                forall|i: int| 0 <= i < low ==> lex_less(string_value(#[trigger] storage@[i]), k),
                forall|i: int| high < i < size ==> lex_less(k, string_value(#[trigger] storage@[i])),
            decreases high - low + 1,
        {
            let c = self.compare(key, &storage[index_of(x)]);
            let ghost sx = string_value(at(storage@, x));
            match c {
                Ordering::Greater => {
                    proof {
                        assert forall|i: int| 0 <= i < x + 1 implies lex_less(
                            string_value(#[trigger] storage@[i]),
                            k,
                        ) by {
                            if i < x {
                                let si = string_value(storage@[i]);
                                lemma_lex_trichotomy(si, sx);
                                if lex_less(si, sx) {
                                    lemma_lex_transitive(si, sx, k);
                                }
                            }
                        }
                    }
                    low = x + 1;
                },
                Ordering::Less => {
                    proof {
                        assert forall|i: int| x - 1 < i < size implies lex_less(
                            k,
                            string_value(#[trigger] storage@[i]),
                        ) by {
                            if i > x {
                                let si = string_value(storage@[i]);
                                lemma_lex_trichotomy(sx, si);
                                if lex_less(sx, si) {
                                    lemma_lex_transitive(k, sx, si);
                                }
                            }
                        }
                    }
                    high = x - 1;
                },
                Ordering::Equal => {
                    return x;
                },
            }
            x = low + (high - low) / 2;
        }
        -low - 1
    }

    /// A string value read from the buffer: the empty string, as nothing is
    /// read.
    pub fn read_1(&self, buff: &ByteBuffer) -> (r: H2RustType)
        ensures
            r is String,
            string_value(r) == Seq::<char>::empty(),
    {
        H2RustType::String(String::new())
    }

    /// Reads `len` values into `storage`, one after the other: each the empty
    /// string, as nothing is read.
    pub fn read_3(&self, buff: &mut ByteBuffer, storage: &mut Vec<H2RustType>, len: i32)
        ensures
            len >= 0 ==> final(storage)@.len() == old(storage)@.len() + len,
            len < 0 ==> final(storage)@.len() == old(storage)@.len(),
            forall|i: int| 0 <= i < old(storage)@.len() ==> #[trigger] final(storage)@[i] == old(storage)@[i],
            forall|i: int|
                old(storage)@.len() <= i < final(storage)@.len() ==> (#[trigger] final(storage)@[i] is String
                    && string_value(final(storage)@[i]) == Seq::<char>::empty()),
            *final(buff) == *old(buff),
    {
        let mut a: i32 = 0;
        let ghost start = storage@;
        while a < len
            invariant
                0 <= a,
                len >= 0 ==> a <= len,
                len < 0 ==> a == 0,
                storage@.len() == start.len() + a,
                forall|i: int| 0 <= i < start.len() ==> #[trigger] storage@[i] == start[i],
                forall|i: int|
                    start.len() <= i < storage@.len() ==> (#[trigger] storage@[i] is String && string_value(
                        storage@[i],
                    ) == Seq::<char>::empty()),
            decreases len - a,
        {
            let v = self.read_1(buff);
            storage.push(v);
            a = a + 1;
        }
    }

    /// Whether memory estimates from the values seen so far may be used:
    /// always, for strings.
    pub fn is_memory_estimation_allowed(&self) -> (r: bool)
        ensures
            r,
    {
        true
    }

    /// Storage for `size` values: an empty vector with room for them.
    pub fn create_storage(&self, size: i32) -> (r: Vec<H2RustType>)
        requires
            size >= 0,
        ensures
            r@.len() == 0,
    {
        Vec::with_capacity(size as usize)
    }
}

} // verus!
