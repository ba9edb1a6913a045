//! Decimal integers as the store sees them.
//!
//! The store keeps every value as a string; INCR succeeds only on a key
//! whose string is the canonical decimal rendering of a 64-bit signed
//! integer. This module fixes that rendering (`dec_of`, `i64_dec`), the
//! canonical-shape predicate (`is_int_str`) and the denoted value
//! (`int_of`), and provides verified parsing and formatting against them.

use vstd::prelude::*;

verus! {

/// Code-point test for an ASCII decimal digit.
pub open spec fn is_digit(c: char) -> bool {
    48 <= c as u32 <= 57
}

/// Numeric value of an ASCII decimal digit.
pub open spec fn digit_val(c: char) -> int {
    c as u32 - 48
}

/// The digit character for `d` in `0 ..= 9`.
pub open spec fn digit_char(d: int) -> char {
    if d == 0 {
        '0'
    } else if d == 1 {
        '1'
    } else if d == 2 {
        '2'
    } else if d == 3 {
        '3'
    } else if d == 4 {
        '4'
    } else if d == 5 {
        '5'
    } else if d == 6 {
        '6'
    } else if d == 7 {
        '7'
    } else if d == 8 {
        '8'
    } else {
        '9'
    }
}

/// Every character of `s` is a decimal digit.
pub open spec fn all_digits(s: Seq<char>) -> bool {
    forall|i: int| 0 <= i < s.len() ==> is_digit(s[i])
}

/// Value of a digit string, most significant digit first.
pub open spec fn digits_val(s: Seq<char>) -> int
    decreases s.len(),
{
    if s.len() == 0 {
        0
    } else {
        digits_val(s.drop_last()) * 10 + digit_val(s.last())
    }
}

/// Canonical decimal integer string: an optional minus sign, then digits,
/// with no leading zero (except the single string "0") and no "-0".
pub open spec fn is_int_str(s: Seq<char>) -> bool {
    if s.len() == 0 {
        false
    } else if s[0] == '-' {
        s.len() >= 2 && all_digits(s.skip(1)) && s[1] != '0'
    } else {
        all_digits(s) && (s.len() == 1 || s[0] != '0')
    }
}

/// The integer a canonical decimal string denotes.
pub open spec fn int_of(s: Seq<char>) -> int {
    if s.len() > 0 && s[0] == '-' {
        -digits_val(s.skip(1))
    } else {
        digits_val(s)
    }
}

/// Whether `n` fits in a 64-bit signed integer.
pub open spec fn in_i64_range(n: int) -> bool {
    i64::MIN <= n <= i64::MAX
}

/// Canonical decimal rendering of a natural number.
pub open spec fn dec_of(n: nat) -> Seq<char>
    decreases n,
{
    if n < 10 {
        seq![digit_char(n as int)]
    } else {
        dec_of(n / 10) + seq![digit_char(n as int % 10)]
    }
}

/// Canonical decimal rendering of an integer.
pub open spec fn i64_dec(n: int) -> Seq<char> {
    if n >= 0 {
        dec_of(n as nat)
    } else {
        seq!['-'] + dec_of((-n) as nat)
    }
}

/// Ten to the `k`.
pub open spec fn pow10(k: nat) -> int
    decreases k,
{
    if k == 0 {
        1
    } else {
        10 * pow10((k - 1) as nat)
    }
}

/// Distinct characters have distinct code points.
pub proof fn lemma_char_code_ne(a: char, b: char)
    requires
        a != b,
    ensures
        a as u32 != b as u32,
{
    vstd::utf8::char_u32_cast(a, a as u32);
    vstd::utf8::char_u32_cast(b, b as u32);
}

/// A digit string with a nonzero leading digit is at least ten to one less
/// than its length.
pub proof fn lemma_digits_val_lower(s: Seq<char>)
    requires
        all_digits(s),
        s.len() > 0,
        s[0] != '0',
    ensures
        digits_val(s) >= pow10((s.len() - 1) as nat),
    decreases s.len(),
{
    if s.len() == 1 {
        assert(is_digit(s[0]));
        lemma_char_code_ne(s[0], '0');
        assert(s[0] as u32 != 48);
        assert(digits_val(s) == digits_val(s.drop_last()) * 10 + digit_val(s.last()));
        assert(s.drop_last().len() == 0);
        assert(digits_val(s) == digit_val(s[0]));
        assert(digits_val(s) >= 1);
    } else {
        assert(all_digits(s.drop_last()));
        assert(s.drop_last()[0] == s[0]);
        lemma_digits_val_lower(s.drop_last());
        assert(is_digit(s.last()));
        assert(digit_val(s.last()) >= 0);
        assert(digits_val(s.drop_last()) >= pow10((s.len() - 2) as nat));
        assert(pow10((s.len() - 1) as nat) == 10 * pow10((s.len() - 2) as nat));
        assert(digits_val(s.drop_last()) * 10 >= pow10((s.len() - 2) as nat) * 10) by (
        nonlinear_arith)
            requires
                digits_val(s.drop_last()) >= pow10((s.len() - 2) as nat),
        ;
    }
}

/// Powers of ten are positive and monotone in the exponent.
pub proof fn lemma_pow10_mono(a: nat, b: nat)
    requires
        a <= b,
    ensures
        1 <= pow10(a) <= pow10(b),
    decreases b,
{
    if b == 0 {
    } else if a == b {
        lemma_pow10_mono((a - 1) as nat, (b - 1) as nat);
    } else {
        lemma_pow10_mono(a, (b - 1) as nat);
    }
}

/// Concrete values of the powers of ten at the 64-bit boundary.
pub proof fn lemma_pow10_vals()
    ensures
        pow10(18) == 1000000000000000000,
        pow10(19) == 10000000000000000000,
{
    assert(pow10(18) == 1000000000000000000) by {
        reveal_with_fuel(pow10, 20);
    }
    assert(pow10(19) == 10 * pow10(18));
}

/// The canonical rendering of a natural number is a digit string with no
/// leading zero, and it denotes that number.
pub proof fn lemma_dec_of_canonical(n: nat)
    ensures
        dec_of(n).len() >= 1,
        all_digits(dec_of(n)),
        digits_val(dec_of(n)) == n,
        n >= 1 ==> dec_of(n)[0] != '0',
        n == 0 ==> dec_of(n) =~= seq!['0'],
        n < 10 ==> dec_of(n).len() == 1,
    decreases n,
{
    if n < 10 {
        assert(is_digit(digit_char(n as int)));
        assert(digit_val(digit_char(n as int)) == n);
        assert(dec_of(n) =~= seq![digit_char(n as int)]);
        assert(dec_of(n).drop_last() =~= Seq::<char>::empty());
        assert(dec_of(n).last() == digit_char(n as int));
        assert(digits_val(dec_of(n)) == digits_val(dec_of(n).drop_last()) * 10 + digit_val(
            dec_of(n).last(),
        ));
        assert(digits_val(Seq::<char>::empty()) == 0);
        assert(digits_val(dec_of(n)) == n);
    } else {
        lemma_dec_of_canonical(n / 10);
        let s = dec_of(n);
        assert(s =~= dec_of(n / 10) + seq![digit_char(n as int % 10)]);
        assert(s.drop_last() =~= dec_of(n / 10));
        assert(s.last() == digit_char(n as int % 10));
        assert(is_digit(digit_char(n as int % 10)));
        assert(digit_val(digit_char(n as int % 10)) == n % 10);
        vstd::arithmetic::div_mod::lemma_fundamental_div_mod(n as int, 10);
        assert(n == 10 * (n as int / 10) + (n as int % 10));
        assert(digits_val(s) == (n / 10) * 10 + (n % 10));
        assert(s[0] == dec_of(n / 10)[0]);
    }
}

/// The canonical rendering of an integer is a canonical integer string and
/// denotes that integer: formatting then parsing is the identity.
pub proof fn lemma_int_round_trip(n: int)
    ensures
        is_int_str(i64_dec(n)),
        int_of(i64_dec(n)) == n,
{
    if n >= 0 {
        lemma_dec_of_canonical(n as nat);
        let s = dec_of(n as nat);
        assert(is_digit(s[0]));
        lemma_char_code_ne(s[0], '-');
        assert(s[0] != '-');
    } else {
        lemma_dec_of_canonical((-n) as nat);
        let s = i64_dec(n);
        assert(s[0] == '-');
        assert(s.skip(1) =~= dec_of((-n) as nat));
        assert(s[1] == dec_of((-n) as nat)[0]);
    }
}

/// The digit character for a small number, as a one-character string.
fn digit_str(d: u64) -> (r: &'static str)
    requires
        d < 10,
    ensures
        r@ =~= seq![digit_char(d as int)],
{
    proof {
        reveal_strlit("0");
        reveal_strlit("1");
        reveal_strlit("2");
        reveal_strlit("3");
        reveal_strlit("4");
        reveal_strlit("5");
        reveal_strlit("6");
        reveal_strlit("7");
        reveal_strlit("8");
        reveal_strlit("9");
    }
    if d == 0 {
        "0"
    } else if d == 1 {
        "1"
    } else if d == 2 {
        "2"
    } else if d == 3 {
        "3"
    } else if d == 4 {
        "4"
    } else if d == 5 {
        "5"
    } else if d == 6 {
        "6"
    } else if d == 7 {
        "7"
    } else if d == 8 {
        "8"
    } else {
        "9"
    }
}

/// Render a natural number in canonical decimal.
pub fn fmt_u64(n: u64) -> (r: String)
    ensures
        r@ == dec_of(n as nat),
    decreases n,
{
    if n < 10 {
        let r = String::from_str(digit_str(n));
        assert(r@ =~= dec_of(n as nat));
        r
    } else {
        let mut r = fmt_u64(n / 10);
        r.append(digit_str(n % 10));
        assert(r@ =~= dec_of(n as nat));
        r
    }
}

/// Render a 64-bit signed integer in canonical decimal.
pub fn fmt_i64(n: i64) -> (r: String)
    ensures
        r@ == i64_dec(n as int),
{
    if n >= 0 {
        fmt_u64(n as u64)
    } else {
        let mag: u64 = (-(n as i128)) as u64;
        let mut r = String::from_str("-");
        proof {
            reveal_strlit("-");
        }
        let digits = fmt_u64(mag);
        r.append(digits.as_str());
        assert(r@ =~= i64_dec(n as int));
        r
    }
}

/// Parse a canonical decimal 64-bit signed integer; anything else, a string
/// out of canonical shape or out of range, is refused.
pub fn parse_i64(s: &str) -> (r: Option<i64>)
    ensures
        r is Some <==> is_int_str(s@) && in_i64_range(int_of(s@)),
        r is Some ==> r.unwrap() as int == int_of(s@),
{
    let n = s.unicode_len();
    if n == 0 {
        return None;
    }
    let neg = s.get_char(0) == '-';
    let start: usize = if neg {
        1
    } else {
        0
    };
    if n == start {
        // a bare minus sign
        return None;
    }
    if neg {
        proof {
            lemma_char_code_ne(s@[0], '0');
        }
    }
    let mut acc: u64 = 0;
    let mut i: usize = start;
    while i < n
        invariant
            start <= i <= n,
            n == s@.len(),
            start == 1 <==> s@[0] == '-',
            start <= 1,
            n > start,
            i - start <= 19,
            forall|j: int| start <= j < i ==> is_digit(s@[j]),
            acc == digits_val(s@.subrange(start as int, i as int)),
            acc < pow10((i - start) as nat),
        decreases n - i,
    {
        if i - start >= 19 {
            // nineteen digits are in hand and another follows: if the text
            // is a canonical integer at all, its magnitude is at least ten
            // to the nineteenth, outside the 64-bit range either way.
            proof {
                if is_int_str(s@) && in_i64_range(int_of(s@)) {
                    let digits = s@.subrange(start as int, n as int);
                    assert(all_digits(digits));
                    if start == 1 {
                        assert(digits =~= s@.skip(1));
                        assert(digits[0] != '0');
                    } else {
                        assert(digits =~= s@);
                        assert(digits[0] != '0');
                    }
                    lemma_digits_val_lower(digits);
                    lemma_pow10_mono(19, (digits.len() - 1) as nat);
                    lemma_pow10_vals();
                    if start == 1 {
                        assert(int_of(s@) == -digits_val(s@.skip(1)));
                        assert(s@.skip(1) =~= digits);
                    } else {
                        assert(int_of(s@) == digits_val(s@));
                    }
                    assert(false);
                }
            }
            return None;
        }
        let c = s.get_char(i);
        let code: u32 = c as u32;
        if code < 48 || code > 57 {
            // a non-digit where a digit must stand
            proof {
                if start == 1 {
                    assert(!is_digit(s@.skip(1)[i - 1]));
                } else {
                    assert(!is_digit(s@[i as int]));
                }
            }
            return None;
        }
        let d: u64 = (code - 48) as u64;
        proof {
            lemma_pow10_mono((i - start) as nat, 18);
            lemma_pow10_vals();
            assert(s@.subrange(start as int, i + 1 as int).drop_last() =~= s@.subrange(
                start as int,
                i as int,
            ));
            assert(s@.subrange(start as int, i + 1 as int).last() == s@[i as int]);
        }
        acc = acc * 10 + d;
        i = i + 1;
    }
    proof {
        assert(s@.subrange(start as int, n as int) =~= s@.skip(start as int));
    }
    if neg {
        // the single "0" is canonical, "-0" is not
        if s.get_char(1) == '0' {
            return None;
        }
        if acc > 9223372036854775808 {
            proof {
                assert(int_of(s@) == -digits_val(s@.skip(1)));
            }
            return None;
        }
        let v: i64 = if acc == 9223372036854775808 {
            i64::MIN
        } else {
            -(acc as i64)
        };
        proof {
            assert(is_int_str(s@));
            assert(int_of(s@) == -(acc as int));
        }
        Some(v)
    } else {
        if n >= 2 && s.get_char(0) == '0' {
            // a leading zero is not canonical
            return None;
        }
        if acc > 9223372036854775807 {
            proof {
                assert(s@[0] != '-');
                assert(int_of(s@) == digits_val(s@));
                assert(s@.skip(0) =~= s@);
            }
            return None;
        }
        proof {
            assert(s@[0] != '-');
            assert(s@.skip(0) =~= s@);
            assert(is_int_str(s@));
            assert(int_of(s@) == acc as int);
        }
        Some(acc as i64)
    }
}

} // verus!
