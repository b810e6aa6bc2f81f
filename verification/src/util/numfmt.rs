use vstd::prelude::*;
use crate::util::chars::{char_from_ascii, string_of};
use crate::util::radix::{all_digits, digit_value, digits_number};

verus! {

/// The character of digit `d` (below 16): `0`-`9`, then `a`-`f`.
pub open spec fn digit_char(d: nat) -> char {
    if d < 10 {
        (48 + d) as char
    } else {
        (87 + d) as char
    }
}

/// The digits of `n` in base `base`, most significant first, without leading zeros
/// (zero is the single digit `0`).
pub open spec fn radix_digits(n: nat, base: nat) -> Seq<char>
    recommends
        2 <= base <= 16,
    decreases n,
{
    if base < 2 || n < base {
        seq![digit_char(n)]
    } else {
        proof {
            assert(n / base < n) by (nonlinear_arith)
                requires
                    base >= 2,
                    n >= base,
            ;
        }
        radix_digits(n / base, base).push(digit_char(n % base))
    }
}

/// The decimal form of `i`, with a leading `-` when negative.
pub open spec fn decimal_of(i: int) -> Seq<char> {
    if i < 0 {
        seq!['-'] + radix_digits((-i) as nat, 10)
    } else {
        radix_digits(i as nat, 10)
    }
}

/// The lower case hexadecimal form of `n`, without leading zeros.
pub open spec fn hex_of(n: nat) -> Seq<char> {
    radix_digits(n, 16)
}

fn digit(d: u64) -> (c: char)
    requires
        d < 16,
    ensures
        c == digit_char(d as nat),
{
    if d < 10 {
        char_from_ascii((48 + d) as u8)
    } else {
        char_from_ascii((87 + d) as u8)
    }
}

/// The digits of `n` in base `base`, most significant first.
pub fn radix_chars(n: u64, base: u64) -> (v: Vec<char>)
    requires
        2 <= base <= 16,
    ensures
        v@ == radix_digits(n as nat, base as nat),
    decreases n,
{
    if n < base {
        let mut v: Vec<char> = Vec::new();
        v.push(digit(n));
        proof {
            assert(v@ =~= seq![digit_char(n as nat)]);
        }
        v
    } else {
        assert(n / base < n) by (nonlinear_arith)
            requires
                base >= 2,
                n >= base,
        ;
        let mut v = radix_chars(n / base, base);
        v.push(digit(n % base));
        v
    }
}

/// The decimal form of `i`.
pub fn i64_to_decimal(i: i64) -> (s: String)
    ensures
        s@ == decimal_of(i as int),
{
    if i < 0 {
        let m: u64 = if i == i64::MIN {
            0x8000_0000_0000_0000u64
        } else {
            (-i) as u64
        };
        let digits = radix_chars(m, 10);
        let mut v: Vec<char> = Vec::new();
        v.push('-');
        let mut k: usize = 0;
        while k < digits.len()
            invariant
                k <= digits@.len(),
                v@ == seq!['-'] + digits@.subrange(0, k as int),
            decreases digits@.len() - k,
        {
            v.push(digits[k]);
            k = k + 1;
            proof {
                assert(v@ =~= seq!['-'] + digits@.subrange(0, k as int));
            }
        }
        proof {
            assert(digits@.subrange(0, digits@.len() as int) =~= digits@);
        }
        string_of(v.as_slice())
    } else {
        let digits = radix_chars(i as u64, 10);
        string_of(digits.as_slice())
    }
}

/// The decimal form of `i`.
pub fn i32_to_decimal(i: i32) -> (s: String)
    ensures
        s@ == decimal_of(i as int),
{
    i64_to_decimal(i as i64)
}

/// The lower case hexadecimal form of the 32 bits of `i` (two's complement for
/// negative values).
pub fn i32_to_hex(i: i32) -> (s: String)
    ensures
        s@ == hex_of((i as u32) as nat),
{
    let digits = radix_chars((i as u32) as u64, 16);
    string_of(digits.as_slice())
}


/// The decimal digits of `n` are decimal digits, read back as `n`, and do not
/// begin with `0` where `n` is positive.
pub proof fn lemma_decimal_digits(n: nat)
    ensures
        radix_digits(n, 10).len() > 0,
        all_digits(radix_digits(n, 10), 10),
        digits_number(radix_digits(n, 10), 10) == n,
        '0' <= radix_digits(n, 10)[0] <= '9',
        n > 0 ==> radix_digits(n, 10)[0] != '0',
    decreases n,
{
    let s = radix_digits(n, 10);
    if n < 10 {
        assert(s == seq![digit_char(n)]);
        assert(s.drop_last() =~= Seq::<char>::empty());
        assert(digit_value(digit_char(n)) == n);
        assert(digits_number(s, 10) == digits_number(s.drop_last(), 10) * 10 + digit_value(s.last()));
    } else {
        let q = n / 10;
        let r = n % 10;
        lemma_decimal_digits(q);
        let t = radix_digits(q, 10);
        assert(s == t.push(digit_char(r)));
        assert(s.drop_last() =~= t);
        assert(digit_value(digit_char(r)) == r);
        assert(s.last() == digit_char(r));
        assert(digits_number(s, 10) == digits_number(t, 10) * 10 + digit_value(s.last()));
        assert(q * 10 + r == n);
        assert forall|i: int| 0 <= i < s.len() implies #[trigger] digit_value(s[i]) < 10 by {
            if i < t.len() {
                assert(s[i] == t[i]);
            }
        }
        assert(s[0] == t[0]);
    }
}

} // verus!
