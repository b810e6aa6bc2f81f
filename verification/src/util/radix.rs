use vstd::prelude::*;

verus! {

/// The value of `c` as a digit in bases up to 36 (`0`-`9`, then `a`-`z` or
/// `A`-`Z`); 99 for any other character.
pub open spec fn digit_value(c: char) -> int {
    if '0' <= c <= '9' {
        c as int - '0' as int
    } else if 'a' <= c <= 'z' {
        c as int - 'a' as int + 10
    } else if 'A' <= c <= 'Z' {
        c as int - 'A' as int + 10
    } else {
        99
    }
}

/// Whether every character of `s` is a digit of base `radix`.
pub open spec fn all_digits(s: Seq<char>, radix: int) -> bool {
    forall|i: int| 0 <= i < s.len() ==> #[trigger] digit_value(s[i]) < radix
}

/// The number that the digits `s` denote in base `radix`, most significant first.
pub open spec fn digits_number(s: Seq<char>, radix: int) -> int
    decreases s.len(),
{
    if s.len() == 0 {
        0
    } else {
        digits_number(s.drop_last(), radix) * radix + digit_value(s.last())
    }
}

/// The integer that `s` denotes in base `radix`: an optional sign `+` or `-`,
/// then at least one digit, and nothing else. `None` where `s` is not of that
/// form. The value is not bounded.
pub open spec fn parse_radix(s: Seq<char>, radix: int) -> Option<int> {
    if s.len() == 0 {
        None
    } else if (s[0] == '+' || s[0] == '-') && s.len() == 1 {
        None
    } else {
        let digits = if s[0] == '+' || s[0] == '-' {
            s.subrange(1, s.len() as int)
        } else {
            s
        };
        if all_digits(digits, radix) {
            if s[0] == '-' {
                Some(-digits_number(digits, radix))
            } else {
                Some(digits_number(digits, radix))
            }
        } else {
            None
        }
    }
}

/// The bound beyond which a parsed magnitude is no longer tracked exactly.
pub open spec fn big() -> int {
    0x1_0000_0000_0000_0000
}

/// `v` held within `-big()` and `big()`.
pub open spec fn clamp_big(v: int) -> int {
    if v > big() {
        big()
    } else if v < -big() {
        -big()
    } else {
        v
    }
}

fn digit_of(c: char) -> (d: u32)
    ensures
        d == digit_value(c),
{
    if '0' <= c && c <= '9' {
        (c as u32) - ('0' as u32)
    } else if 'a' <= c && c <= 'z' {
        (c as u32) - ('a' as u32) + 10
    } else if 'A' <= c && c <= 'Z' {
        (c as u32) - ('A' as u32) + 10
    } else {
        99
    }
}

/// Digits denote a number that is not negative.
pub proof fn lemma_digits_number_nonneg(s: Seq<char>, radix: int)
    requires
        radix >= 2,
        all_digits(s, radix),
    ensures
        digits_number(s, radix) >= 0,
    decreases s.len(),
{
    if s.len() > 0 {
        assert(digit_value(s[s.len() - 1]) < radix);
        assert(all_digits(s.drop_last(), radix)) by {
            assert forall|i: int| 0 <= i < s.drop_last().len() implies #[trigger] digit_value(
                s.drop_last()[i],
            ) < radix by {
                assert(s.drop_last()[i] == s[i]);
            }
        }
        lemma_digits_number_nonneg(s.drop_last(), radix);
        assert(digits_number(s.drop_last(), radix) * radix >= 0) by (nonlinear_arith)
            requires
                digits_number(s.drop_last(), radix) >= 0,
                radix >= 2,
        ;
        assert('0' <= s.last() <= '9' || 'a' <= s.last() <= 'z' || 'A' <= s.last() <= 'Z' || digit_value(s.last()) == 99);
    }
}

/// The magnitude of the digits `s` in base `radix`, held within `big()`;
/// `None` if some character is not a digit of that base.
fn digits_clamped(s: &[char], start: usize, radix: u32) -> (r: Option<u128>)
    requires
        2 <= radix <= 36,
        start <= s@.len(),
    ensures
        r.is_some() == all_digits(s@.subrange(start as int, s@.len() as int), radix as int),
        r matches Some(v) ==> v as int == clamp_big(digits_number(s@.subrange(start as int, s@.len() as int), radix as int)),
{
    let ghost d = s@.subrange(start as int, s@.len() as int);
    let mut acc: u128 = 0;
    let mut i = start;
    while i < s.len()
        invariant
            2 <= radix <= 36,
            start <= i <= s@.len(),
            d == s@.subrange(start as int, s@.len() as int),
            all_digits(s@.subrange(start as int, i as int), radix as int),
            acc as int == clamp_big(digits_number(s@.subrange(start as int, i as int), radix as int)),
            digits_number(s@.subrange(start as int, i as int), radix as int) >= 0,
        decreases s@.len() - i,
    {
        let ghost pre = s@.subrange(start as int, i as int);
        let ghost next = s@.subrange(start as int, i + 1);
        assert(next.drop_last() =~= pre);
        let dv = digit_of(s[i]);
        if dv >= radix {
            proof {
                assert(d[i - start] == s@[i as int]);
            }
            return None;
        }
        proof {
            assert forall|j: int| 0 <= j < next.len() implies #[trigger] digit_value(next[j]) < radix by {
                if j < pre.len() {
                    assert(next[j] == pre[j]);
                }
            }
            let x = digits_number(pre, radix as int);
            assert(digits_number(next, radix as int) == x * radix + dv);
            assert(x * radix + dv >= x) by (nonlinear_arith)
                requires
                    x >= 0,
                    radix >= 2,
                    dv >= 0,
            ;
            if x >= big() {
                assert(x * radix + dv >= big()) by (nonlinear_arith)
                    requires
                        x >= big(),
                        radix >= 2,
                        dv >= 0,
                ;
            }
        }
        let big_v: u128 = 0x1_0000_0000_0000_0000u128;
        if acc >= big_v {
            acc = big_v;
        } else {
            assert(acc * radix as u128 <= 0x1_0000_0000_0000_0000u128 * 36) by (nonlinear_arith)
                requires
                    acc < 0x1_0000_0000_0000_0000u128,
                    radix <= 36,
            ;
            let v = acc * (radix as u128) + (dv as u128);
            acc = if v > big_v {
                big_v
            } else {
                v
            };
        }
        i = i + 1;
    }
    proof {
        assert(s@.subrange(start as int, i as int) =~= d);
    }
    Some(acc)
}

/// The integer that `s` denotes in base `radix` (see `parse_radix`), held within
/// `big()`.
pub fn parse_radix_clamped(s: &[char], radix: u32) -> (r: Option<i128>)
    requires
        2 <= radix <= 36,
    ensures
        r.is_some() == parse_radix(s@, radix as int).is_some(),
        r matches Some(v) ==> v as int == clamp_big(parse_radix(s@, radix as int)->0),
{
    if s.len() == 0 {
        return None;
    }
    let first = s[0];
    let signed = first == '+' || first == '-';
    if signed && s.len() == 1 {
        return None;
    }
    let start: usize = if signed {
        1
    } else {
        0
    };
    proof {
        if !signed {
            assert(s@.subrange(0, s@.len() as int) =~= s@);
        }
    }
    match digits_clamped(s, start, radix) {
        None => None,
        Some(m) => {
            proof {
                lemma_digits_number_nonneg(s@.subrange(start as int, s@.len() as int), radix as int);
            }
            if first == '-' {
                Some(-(m as i128))
            } else {
                Some(m as i128)
            }
        },
    }
}

/// The integer that `s` denotes in base `radix` if it is of the form of
/// `parse_radix` and fits in an `i32`.
pub fn parse_i32_radix(s: &[char], radix: u32) -> (r: Option<i32>)
    requires
        2 <= radix <= 36,
    ensures
        r == (match parse_radix(s@, radix as int) {
            Some(v) => if i32::MIN <= v <= i32::MAX {
                Some(v as i32)
            } else {
                None::<i32>
            },
            None => None,
        }),
{
    match parse_radix_clamped(s, radix) {
        None => None,
        Some(v) => {
            if -2147483648i128 <= v && v <= 2147483647i128 {
                Some(v as i32)
            } else {
                None
            }
        },
    }
}

/// The integer that `s` denotes in base `radix` if it is of the form of
/// `parse_radix` and fits in an `i64`.
pub fn parse_i64_radix(s: &[char], radix: u32) -> (r: Option<i64>)
    requires
        2 <= radix <= 36,
    ensures
        r == (match parse_radix(s@, radix as int) {
            Some(v) => if i64::MIN <= v <= i64::MAX {
                Some(v as i64)
            } else {
                None::<i64>
            },
            None => None,
        }),
{
    match parse_radix_clamped(s, radix) {
        None => None,
        Some(v) => {
            if -9223372036854775808i128 <= v && v <= 9223372036854775807i128 {
                Some(v as i64)
            } else {
                None
            }
        },
    }
}

} // verus!
