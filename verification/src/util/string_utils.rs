use vstd::prelude::*;
use vstd::utf8::*;
use vstd::string::StringSliceAdditionalSpecFns;
use crate::api::error_code;
use crate::message::db_error::{DbError, is_error, one_param};
use crate::util::chars::{chars_of, to_owned_string};

verus! {

/// What `str::to_uppercase` gives for a string: its Unicode upper case form.
pub uninterp spec fn upper_case_of(s: Seq<char>) -> Seq<char>;

/// What `str::to_lowercase` gives for a string: its Unicode lower case form.
pub uninterp spec fn lower_case_of(s: Seq<char>) -> Seq<char>;

/// Calls `str::to_uppercase`. Its result is named `upper_case_of` of the
/// characters of `s`; nothing more is claimed of it.
#[verifier::external_body]
fn str_to_uppercase(s: &str) -> (r: String)
    ensures
        r@ == upper_case_of(s@),
{
    s.to_uppercase()
}

/// Calls `str::to_lowercase`. Its result is named `lower_case_of` of the
/// characters of `s`; nothing more is claimed of it.
#[verifier::external_body]
fn str_to_lowercase(s: &str) -> (r: String)
    ensures
        r@ == lower_case_of(s@),
{
    s.to_lowercase()
}

/// The value of a hexadecimal digit (`0`-`9`, `a`-`f`, `A`-`F`), -1 otherwise.
pub open spec fn hex_value(c: char) -> int {
    if '0' <= c <= '9' {
        c as int - '0' as int
    } else if 'a' <= c <= 'f' {
        c as int - 'a' as int + 10
    } else if 'A' <= c <= 'F' {
        c as int - 'A' as int + 10
    } else {
        -1
    }
}

/// Whether every character of `s` is a hexadecimal digit.
pub open spec fn all_hex(s: Seq<char>) -> bool {
    forall|i: int| 0 <= i < s.len() ==> #[trigger] hex_value(s[i]) >= 0
}

/// The bytes that the hexadecimal text `s` denotes, two digits per byte, the
/// high digit first.
pub open spec fn hex_bytes(s: Seq<char>) -> Seq<u8> {
    Seq::new(s.len() / 2, |i: int| (hex_value(s[2 * i]) * 16 + hex_value(s[2 * i + 1])) as u8)
}

fn hex_digit_value(c: char) -> (v: i32)
    ensures
        v == hex_value(c),
{
    if '0' <= c && c <= '9' {
        (c as u32 - '0' as u32) as i32
    } else if 'a' <= c && c <= 'f' {
        (c as u32 - 'a' as u32 + 10) as i32
    } else if 'A' <= c && c <= 'F' {
        (c as u32 - 'A' as u32 + 10) as i32
    } else {
        -1
    }
}

/// What decoding the hexadecimal text `s` gives: an odd number of characters
/// is the error `HEX_STRING_ODD_1`, a character that is no hexadecimal digit
/// the error `HEX_STRING_WRONG_1`, both naming `s`; else the bytes.
pub open spec fn hex_decode_result(s: Seq<char>) -> Result<Seq<u8>, (i32, Seq<Seq<char>>)> {
    if s.len() % 2 != 0 {
        Err((error_code::HEX_STRING_ODD_1, seq![s]))
    } else if !all_hex(s) {
        Err((error_code::HEX_STRING_WRONG_1, seq![s]))
    } else {
        Ok(hex_bytes(s))
    }
}

/// Decodes a hexadecimal text into bytes; see `hex_decode_result`.
pub fn convert_hex_to_byte_vec(s: &str) -> (r: Result<Vec<u8>, DbError>)
    ensures
        match hex_decode_result(s@) {
            Ok(b) => r matches Ok(v) && v@ == b,
            Err(x) => r matches Err(e) && is_error(e, x.0, x.1),
        },
{
    let chars = chars_of(s);
    let n = chars.len();
    if n % 2 != 0 {
        return Err(DbError::get(error_code::HEX_STRING_ODD_1, one_param(s)));
    }
    let len = n / 2;
    let mut buff: Vec<u8> = Vec::new();
    let mut ok = true;
    let mut l: usize = 0;
    while l < len
        invariant
            n == chars@.len(),
            chars@ == s@,
            len == n / 2,
            l <= len,
            buff@.len() == l,
            ok == (forall|i: int| 0 <= i < 2 * l ==> #[trigger] hex_value(chars@[i]) >= 0),
            ok ==> forall|i: int| 0 <= i < l ==> buff@[i] == hex_bytes(s@)[i],
        decreases len - l,
    {
        let a = hex_digit_value(chars[2 * l]);
        let b = hex_digit_value(chars[2 * l + 1]);
        let ghost was_ok = ok;
        if a < 0 || b < 0 {
            ok = false;
            buff.push(0);
        } else {
            buff.push((a * 16 + b) as u8);
        }
        proof {
            if !was_ok {
                let w = choose|i: int| 0 <= i < 2 * l && !(hex_value(chars@[i]) >= 0);
                assert(0 <= w < 2 * (l + 1) && !(hex_value(chars@[w]) >= 0));
            }
            if !ok && was_ok {
                if a < 0 {
                    assert(!(hex_value(chars@[2 * l as int]) >= 0));
                } else {
                    assert(!(hex_value(chars@[2 * l + 1]) >= 0));
                }
            }
        }
        l = l + 1;
    }
    if !ok {
        proof {
            let w = choose|i: int| 0 <= i < 2 * l && !(hex_value(chars@[i]) >= 0);
            assert(!all_hex(s@));
        }
        return Err(DbError::get(error_code::HEX_STRING_WRONG_1, one_param(s)));
    }
    proof {
        assert(buff@ =~= hex_bytes(s@));
    }
    Ok(buff)
}

/// The upper case form of `s`.
pub fn to_upper_english(s: &str) -> (r: String)
    ensures
        r@ == upper_case_of(s@),
{
    str_to_uppercase(s)
}

/// The lower case form of `s`.
pub fn to_lower_english(s: &str) -> (r: String)
    ensures
        r@ == lower_case_of(s@),
{
    str_to_lowercase(s)
}

/// `s` cut to its first `max_length` bytes if it is longer. Where it is longer,
/// byte `max_length` must start a character.
pub fn truncate_string(s: &str, max_length: usize) -> (r: String)
    requires
        encode_utf8(s@).len() > max_length ==> is_char_boundary(encode_utf8(s@), max_length as int),
    ensures
        encode_utf8(s@).len() > max_length ==> encode_utf8(r@) == encode_utf8(s@).subrange(0, max_length as int),
        encode_utf8(s@).len() <= max_length ==> r@ == s@,
{
    let n = s.as_bytes().len();
    proof {
        assert(s.spec_bytes() == encode_utf8(s@));
    }
    if n > max_length {
        let (head, _tail) = s.split_at(max_length);
        proof {
            assert(head.spec_bytes() == encode_utf8(head@));
            assert(s.spec_bytes() == encode_utf8(s@));
            assert(head.spec_bytes() =~= s.spec_bytes().subrange(0, max_length as int));
        }
        let r = to_owned_string(head);
        proof {
            assert(r@ == head@);
            assert(encode_utf8(r@) == encode_utf8(head@));
        }
        r
    } else {
        to_owned_string(s)
    }
}


/// A string cut by `truncate_string` is not longer than the limit, so cutting it
/// again leaves it as it is.
pub proof fn law_truncated_fits(s: Seq<char>, r: Seq<char>, max_length: usize)
    requires
        encode_utf8(s).len() > max_length ==> encode_utf8(r) == encode_utf8(s).subrange(0, max_length as int),
        encode_utf8(s).len() <= max_length ==> r == s,
    ensures
        encode_utf8(r).len() <= max_length,
{
}

/// Whether `c` is one of the characters `0`-`9`, `a`-`f` and `A`-`F`.
pub open spec fn is_hex_char(c: char) -> bool {
    ('0' <= c && c <= '9') || ('a' <= c && c <= 'f') || ('A' <= c && c <= 'F')
}

/// `c` in lower case where it is one of `A`-`F`, else `c`.
pub open spec fn hex_char_lower(c: char) -> char {
    if 'A' <= c && c <= 'F' {
        (c as int + 32) as char
    } else {
        c
    }
}

/// Hexadecimal decoding knows no case: every text of an even number of the
/// characters `0`-`9`, `a`-`f`, `A`-`F` decodes, and to the same bytes as
/// its form with `A`-`F` put in lower case.
pub proof fn law_hex_ignores_case(s: Seq<char>)
    requires
        s.len() % 2 == 0,
        forall|i: int| 0 <= i < s.len() ==> is_hex_char(#[trigger] s[i]),
    ensures
        hex_decode_result(s) is Ok,
        hex_decode_result(s.map_values(|c: char| hex_char_lower(c))) == hex_decode_result(s),
{
    let t = s.map_values(|c: char| hex_char_lower(c));
    assert forall|i: int| 0 <= i < s.len() implies #[trigger] hex_value(s[i]) >= 0 && hex_value(t[i]) == hex_value(
        s[i],
    ) by {
        assert(t[i] == hex_char_lower(s[i]));
    }
    assert(all_hex(s));
    assert(all_hex(t)) by {
        assert forall|i: int| 0 <= i < t.len() implies #[trigger] hex_value(t[i]) >= 0 by {
            assert(hex_value(s[i]) >= 0);
        }
    }
    assert(hex_bytes(t) =~= hex_bytes(s)) by {
        assert forall|i: int| 0 <= i < s.len() / 2 implies #[trigger] hex_bytes(t)[i] == hex_bytes(s)[i] by {
            assert(hex_value(t[2 * i]) == hex_value(s[2 * i]));
            assert(hex_value(t[2 * i + 1]) == hex_value(s[2 * i + 1]));
        }
    }
}

/// The worth of each hexadecimal digit: `0`-`9` are worth 0 to 9, and
/// `a`-`f` and `A`-`F` alike are worth 10 to 15; the first digit of a pair
/// counts sixteen times.
pub proof fn law_hex_digit_worth(c: char)
    ensures
        '0' <= c && c <= '9' ==> hex_decode_result(seq![c, '0']) == Ok::<Seq<u8>, (i32, Seq<Seq<char>>)>(
            seq![((c as int - 48) * 16) as u8],
        ),
        'a' <= c && c <= 'f' ==> hex_decode_result(seq!['0', c]) == Ok::<Seq<u8>, (i32, Seq<Seq<char>>)>(
            seq![(c as int - 87) as u8],
        ),
        'A' <= c && c <= 'F' ==> hex_decode_result(seq!['0', c]) == Ok::<Seq<u8>, (i32, Seq<Seq<char>>)>(
            seq![(c as int - 55) as u8],
        ),
{
    let a = seq![c, '0'];
    let b = seq!['0', c];
    if '0' <= c && c <= '9' {
        assert(all_hex(a)) by {
            assert forall|i: int| 0 <= i < a.len() implies #[trigger] hex_value(a[i]) >= 0 by {}
        }
        assert(hex_bytes(a) =~= seq![((c as int - 48) * 16) as u8]);
    }
    if ('a' <= c && c <= 'f') || ('A' <= c && c <= 'F') {
        assert(all_hex(b)) by {
            assert forall|i: int| 0 <= i < b.len() implies #[trigger] hex_value(b[i]) >= 0 by {}
        }
        if 'a' <= c && c <= 'f' {
            assert(hex_bytes(b) =~= seq![(c as int - 87) as u8]);
        } else {
            assert(hex_bytes(b) =~= seq![(c as int - 55) as u8]);
        }
    }
}

} // verus!
