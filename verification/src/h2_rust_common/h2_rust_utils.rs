use vstd::prelude::*;
use crate::api::error_code;
use crate::message::db_error::{DbError, is_error, one_param};
use crate::util::chars::{
    chars_find,
    chars_of,
    chars_slice,
    chars_starts_with,
    first_index_of,
    is_prefix,
    lemma_first_index_of,
    str_concat,
    string_of,
};
use crate::h2_rust_common::properties::Properties;
use crate::util::radix::{all_digits, digit_value, digits_number, lemma_digits_number_nonneg, parse_radix_clamped};
use crate::util::numfmt::{decimal_of, digit_char, lemma_decimal_digits, radix_digits};
use crate::mvstore::store_config::{ConfigValue, StoreConfig};

verus! {

/// The base and the digits of a number without its sign, as
/// `Integer.decode` reads them: `0x`, `0X` or `#` announce hexadecimal digits,
/// a `0` followed by more characters octal digits, and anything else is
/// decimal.
pub open spec fn radix_and_digits(r: Seq<char>) -> (int, Seq<char>) {
    if is_prefix("0x"@, r) || is_prefix("0X"@, r) {
        (16, r.subrange(2, r.len() as int))
    } else if is_prefix("#"@, r) {
        (16, r.subrange(1, r.len() as int))
    } else if is_prefix("0"@, r) && r.len() > 1 {
        (8, r.subrange(1, r.len() as int))
    } else {
        (10, r)
    }
}

/// The number that `integer_decode` reads from `s`, before the range check:
/// an optional sign `-` or `+`, then a base prefix (see `radix_and_digits`),
/// then at least one digit of that base and nothing else. `None` where `s`
/// is not of that form.
pub open spec fn decoded_integer(s: Seq<char>) -> Option<int> {
    if s.len() == 0 {
        None
    } else {
        let negative = s[0] == '-';
        let r = if s[0] == '-' || s[0] == '+' {
            s.subrange(1, s.len() as int)
        } else {
            s
        };
        let (radix, d) = radix_and_digits(r);
        if d.len() > 0 && all_digits(d, radix) {
            if negative {
                Some(-digits_number(d, radix))
            } else {
                Some(digits_number(d, radix))
            }
        } else {
            None
        }
    }
}

/// Whether `integer_decode` succeeds on `s`.
pub open spec fn integer_decodes(s: Seq<char>) -> bool {
    decoded_integer(s) matches Some(v) && i32::MIN <= v <= i32::MAX
}

/// The message parameter of the error of `integer_decode`.
pub open spec fn decode_error_param(s: Seq<char>) -> Seq<char> {
    "covert text "@ + s + " to number failed"@
}

/// Reads an integer the way `Integer.decode` does: an optional sign, then
/// `0x`, `0X` or `#` for hexadecimal digits, a leading `0` (followed by more)
/// for octal digits, decimal digits otherwise. A text that is empty, has no
/// digits or other characters, or whose value does not fit in an `i32`, is the
/// error `DATA_CONVERSION_ERROR_1`.
pub fn integer_decode(s: &str) -> (r: Result<i32, DbError>)
    ensures
        integer_decodes(s@) ==> r == Ok::<i32, DbError>(decoded_integer(s@)->0 as i32),
        !integer_decodes(s@) ==> (r matches Err(e) && is_error(
            e,
            error_code::DATA_CONVERSION_ERROR_1,
            seq![decode_error_param(s@)],
        )),
{
    let c = chars_of(s);
    let parsed: Option<i32> = if c.len() == 0 {
        None
    } else {
        let negative = c[0] == '-';
        let start: usize = if c[0] == '-' || c[0] == '+' {
            1
        } else {
            0
        };
        let r = chars_slice(c.as_slice(), start, c.len());
        proof {
            if start == 0 {
                assert(r@ =~= c@);
            }
        }
        let hex_lower = chars_of("0x");
        let hex_upper = chars_of("0X");
        let hash = chars_of("#");
        let zero = chars_of("0");
        proof {
            reveal_strlit("0x");
            reveal_strlit("0X");
            reveal_strlit("#");
            reveal_strlit("0");
        }
        let (radix, d) = if chars_starts_with(r.as_slice(), hex_lower.as_slice()) || chars_starts_with(
            r.as_slice(),
            hex_upper.as_slice(),
        ) {
            (16u32, chars_slice(r.as_slice(), 2, r.len()))
        } else if chars_starts_with(r.as_slice(), hash.as_slice()) {
            (16u32, chars_slice(r.as_slice(), 1, r.len()))
        } else if chars_starts_with(r.as_slice(), zero.as_slice()) && r.len() > 1 {
            (8u32, chars_slice(r.as_slice(), 1, r.len()))
        } else {
            (10u32, chars_slice(r.as_slice(), 0, r.len()))
        };
        proof {
            let (sr, sd) = radix_and_digits(r@);
            if radix == 10 {
                assert(r@.subrange(0, r@.len() as int) =~= r@);
            }
            assert(radix == sr && d@ == sd);
        }
        if d.len() == 0 || d[0] == '+' || d[0] == '-' {
            proof {
                if d@.len() > 0 {
                    assert(digit_value(d@[0]) == 99);
                }
            }
            None
        } else {
            match parse_radix_clamped(d.as_slice(), radix) {
                None => None,
                Some(m) => {
                    proof {
                        lemma_digits_number_nonneg(d@, radix as int);
                    }
                    let v: i128 = if negative {
                        -m
                    } else {
                        m
                    };
                    if -2147483648i128 <= v && v <= 2147483647i128 {
                        Some(v as i32)
                    } else {
                        None
                    }
                },
            }
        }
    };
    match parsed {
        Some(r) => Ok(r),
        None => {
            let a = str_concat("covert text ", s);
            let m = str_concat(a.as_str(), " to number failed");
            Err(DbError::get(error_code::DATA_CONVERSION_ERROR_1, one_param(m.as_str())))
        },
    }
}

/// The decimal form of every `i32` decodes to itself.
pub proof fn law_decode_decimal(n: i32)
    ensures
        integer_decodes(decimal_of(n as int)),
        decoded_integer(decimal_of(n as int)) == Some(n as int),
{
    let m: nat = if n < 0 {
        (-n) as nat
    } else {
        n as nat
    };
    let t = radix_digits(m, 10);
    let s = decimal_of(n as int);
    lemma_decimal_digits(m);
    reveal_strlit("0x");
    reveal_strlit("0X");
    reveal_strlit("#");
    reveal_strlit("0");
    let r = if n < 0 {
        s.subrange(1, s.len() as int)
    } else {
        s
    };
    assert(r =~= t) by {
        if n < 0 {
            assert(s == seq!['-'] + t);
        }
    }
    assert(!is_prefix("0x"@, t) && !is_prefix("0X"@, t) && !is_prefix("#"@, t)) by {
        if is_prefix("0x"@, t) || is_prefix("0X"@, t) {
            assert(t.subrange(0, 2)[1] == t[1]);
            assert("0x"@[1] == 'x' && "0X"@[1] == 'X');
            assert(digit_value(t[1]) < 10);
        }
        if is_prefix("#"@, t) {
            assert(t.subrange(0, 1)[0] == t[0]);
        }
    }
    assert(!(is_prefix("0"@, t) && t.len() > 1)) by {
        if is_prefix("0"@, t) {
            assert(t.subrange(0, 1)[0] == t[0]);
            if m > 0 {
                assert(t[0] != '0');
            } else {
                assert(t == seq![digit_char(0)]);
            }
        }
    }
    assert(radix_and_digits(r) == (10int, t));
    if n >= 0 {
        assert(s[0] != '-' && s[0] != '+');
    } else {
        assert(s[0] == '-');
    }
}

/// The value set under `key` in a store configuration, if any.
pub fn get_from_map<'a>(config: &'a StoreConfig, key: &str) -> (r: Option<&'a ConfigValue>)
    ensures
        match r {
            Some(v) => config.map().contains_key(key@) && v@ == config.map()[key@],
            None => !config.map().contains_key(key@),
        },
{
    config.get(key)
}


/// The key of a line `key=value`: the text before its first `=`.
pub open spec fn line_key(line: Seq<char>) -> Seq<char> {
    line.subrange(0, first_index_of(line, '=')->0)
}

/// The value of a line `key=value`: the text after its first `=`, up to a
/// second `=` where there is one.
pub open spec fn line_value(line: Seq<char>) -> Seq<char> {
    let rest = line.subrange(first_index_of(line, '=')->0 + 1, line.len() as int);
    match first_index_of(rest, '=') {
        Some(j) => rest.subrange(0, j),
        None => rest,
    }
}

/// The settings that the lines `lines[0..n]` give, a later line replacing an
/// earlier one with the same key.
pub open spec fn lines_map(lines: Seq<Seq<char>>, n: int) -> Map<Seq<char>, Seq<char>>
    decreases n,
{
    if n <= 0 {
        Map::empty()
    } else {
        lines_map(lines, n - 1).insert(line_key(lines[n - 1]), line_value(lines[n - 1]))
    }
}

/// The key and the value of a line `key=value`.
fn split_line(text: &str) -> (r: (String, String))
    requires
        text@.contains('='),
    ensures
        r.0@ == line_key(text@),
        r.1@ == line_value(text@),
{
    let line = chars_of(text);
    proof {
        lemma_first_index_of(line@, '=');
        let j = choose|j: int| 0 <= j < line@.len() && line@[j] == '=';
        assert(line@[j] == '=');
    }
    let eq = match chars_find(line.as_slice(), '=') {
        Some(e) => e,
        None => {
            proof {
                assert(false);
            }
            0
        },
    };
    let n = line.len();
    assert(eq < n);
    let key = chars_slice(line.as_slice(), 0, eq);
    let rest = chars_slice(line.as_slice(), eq + 1, n);
    proof {
        lemma_first_index_of(rest@, '=');
    }
    let value = match chars_find(rest.as_slice(), '=') {
        Some(e) => chars_slice(rest.as_slice(), 0, e),
        None => rest,
    };
    (string_of(key.as_slice()), string_of(value.as_slice()))
}

/// The settings of the lines `key=value` of a properties file; see
/// `line_key` and `line_value`. Every line holds a `=`.
pub fn properties_from_lines(lines: &Vec<String>) -> (p: Properties)
    requires
        forall|i: int| 0 <= i < lines@.len() ==> (#[trigger] lines@[i])@.contains('='),
    ensures
        p.wf(),
        p.map() == lines_map(lines.deep_view(), lines@.len() as int),
{
    let mut p = Properties::new();
    let ghost lv = lines.deep_view();
    let mut i: usize = 0;
    while i < lines.len()
        invariant
            forall|i: int| 0 <= i < lines@.len() ==> (#[trigger] lines@[i])@.contains('='),
            lv == lines.deep_view(),
            lv.len() == lines@.len(),
            i <= lines@.len(),
            p.wf(),
            p.map() == lines_map(lv, i as int),
        decreases lines@.len() - i,
    {
        let ghost text = lines@[i as int]@;
        assert(lv[i as int] == text);
        assert(text.contains('='));
        let (key, value) = split_line(lines[i].as_str());
        p.insert(key, value);
        i = i + 1;
    }
    p
}

} // verus!
