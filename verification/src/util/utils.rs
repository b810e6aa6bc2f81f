use vstd::prelude::*;
use crate::api::error_code;
use crate::h2_rust_common::h2_rust_constant::GB;
use crate::message::db_error::{DbError, is_error, one_param};
use crate::util::chars::{
    chars_eq,
    chars_eq_ignore_ascii_case,
    chars_of,
    eq_ignore_ascii_case,
    str_concat,
};

verus! {

/// The texts that read as `true`: `1`, and `t`, `y`, `yes`, `true` in any ASCII case.
pub open spec fn is_true_word(s: Seq<char>) -> bool {
    ||| s == "1"@
    ||| eq_ignore_ascii_case(s, "t"@)
    ||| eq_ignore_ascii_case(s, "y"@)
    ||| eq_ignore_ascii_case(s, "yes"@)
    ||| eq_ignore_ascii_case(s, "true"@)
}

/// The texts that read as `false`: `0`, and `f`, `n`, `no`, `false` in any ASCII case.
pub open spec fn is_false_word(s: Seq<char>) -> bool {
    ||| s == "0"@
    ||| eq_ignore_ascii_case(s, "f"@)
    ||| eq_ignore_ascii_case(s, "n"@)
    ||| eq_ignore_ascii_case(s, "no"@)
    ||| eq_ignore_ascii_case(s, "false"@)
}

/// What `parse_bool` gives for a text that is not empty and no boolean word.
pub open spec fn bool_error_param(s: Seq<char>) -> Seq<char> {
    "can't convert "@ + s + " to bool"@
}

/// What `parse_bool` gives when it succeeds.
pub open spec fn parse_bool_value(s: Seq<char>, default_value: bool) -> bool {
    if s.len() == 0 {
        default_value
    } else if is_true_word(s) {
        true
    } else if is_false_word(s) {
        false
    } else {
        default_value
    }
}

/// Whether `parse_bool` fails.
pub open spec fn parse_bool_fails(s: Seq<char>, throw_exception: bool) -> bool {
    s.len() > 0 && !is_true_word(s) && !is_false_word(s) && throw_exception
}

fn matches_word(c: &Vec<char>, w: &str) -> (r: bool)
    ensures
        r == eq_ignore_ascii_case(c@, w@),
{
    let wv = chars_of(w);
    chars_eq_ignore_ascii_case(c.as_slice(), wv.as_slice())
}

fn is_word(c: &Vec<char>, w: &str) -> (r: bool)
    ensures
        r == (c@ == w@),
{
    let wv = chars_of(w);
    chars_eq(c.as_slice(), wv.as_slice())
}

/// Reads a boolean: `default_value` for an empty text; `true` or `false` for
/// the boolean words; for any other text, the error `DATA_CONVERSION_ERROR_1`
/// if `throw_exception` is set, else `default_value`.
pub fn parse_bool(s: &str, default_value: bool, throw_exception: bool) -> (r: Result<bool, DbError>)
    ensures
        parse_bool_fails(s@, throw_exception) ==> (r matches Err(e) && is_error(
            e,
            error_code::DATA_CONVERSION_ERROR_1,
            seq![bool_error_param(s@)],
        )),
        !parse_bool_fails(s@, throw_exception) ==> r == Ok::<bool, DbError>(
            parse_bool_value(s@, default_value),
        ),
{
    let c = chars_of(s);
    if c.len() == 0 {
        return Ok(default_value);
    }
    if is_word(&c, "1") || matches_word(&c, "t") || matches_word(&c, "y") || matches_word(&c, "yes")
        || matches_word(&c, "true") {
        return Ok(true);
    }
    if is_word(&c, "0") || matches_word(&c, "f") || matches_word(&c, "n") || matches_word(&c, "no")
        || matches_word(&c, "false") {
        return Ok(false);
    }
    if throw_exception {
        let a = str_concat("can't convert ", s);
        let m = str_concat(a.as_str(), " to bool");
        return Err(DbError::get(error_code::DATA_CONVERSION_ERROR_1, one_param(m.as_str())));
    }
    Ok(default_value)
}

/// Division of `x` by a positive `d`, rounded toward zero.
pub open spec fn trunc_div(x: int, d: int) -> int {
    if x >= 0 {
        x / d
    } else {
        -((-x) / d)
    }
}

/// The scale factor for a machine of `total_memory` bytes: the low 32 bits of
/// the byte count, as a signed value, in whole gibibytes, and at least one where
/// that is zero.
pub open spec fn memory_factor(total_memory: i64) -> int {
    let a = trunc_div((total_memory as i32) as int, GB as int);
    if a == 0 {
        1
    } else {
        a
    }
}

/// What `scaleForAvailableMemory` gives.
pub open spec fn scaled_for_memory(value: i32, total_memory: Option<i64>) -> int {
    match total_memory {
        Some(t) => value * memory_factor(t),
        None => value as int,
    }
}

/// Scales `value` by the machine's memory in gibibytes; `total_memory` is the
/// total physical memory in bytes where it could be read, `None` otherwise.
pub fn scaleForAvailableMemory(value: i32, total_memory: Option<i64>) -> (r: i32)
    requires
        i32::MIN <= scaled_for_memory(value, total_memory) <= i32::MAX,
    ensures
        r == scaled_for_memory(value, total_memory),
{
    match total_memory {
        Some(total) => {
            let t = total as i32;
            let mut a: i32 = if t >= 0 {
                t / GB
            } else {
                let n = -(t as i64);
                let m = n / (GB as i64);
                assert(m <= 2) by (nonlinear_arith)
                    requires
                        n <= 0x8000_0000,
                        m == n / 0x4000_0000,
                        n >= 0,
                ;
                -(m as i32)
            };
            if a == 0 {
                a = 1;
            }
            assert(a == memory_factor(total));
            value * a
        },
        None => value,
    }
}

} // verus!
