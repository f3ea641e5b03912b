//! Decimal representations of integers: a specification of the canonical
//! decimal form, an executable formatter, and an executable parser that
//! accepts exactly the canonical forms.

use vstd::prelude::*;
use vstd::string::StringExecFns;
use vstd::string::StrSliceExecFns;

verus! {

/// The digit character for a value `d` in `0 .. 10`.
pub open spec fn digit_char(d: int) -> char {
    if d == 0 {
        '0'
    } else if d == 1 {
        '1'
    } else if d == 2 {
        '2'
    } else if d == 3 {
        '3'
    } else if d == 4 {
        '4'
    } else if d == 5 {
        '5'
    } else if d == 6 {
        '6'
    } else if d == 7 {
        '7'
    } else if d == 8 {
        '8'
    } else {
        '9'
    }
}

/// Decimal representation of a natural number, most significant digit first,
/// without leading zeros (the number zero is the single digit `0`).
pub open spec fn dec_nat(n: nat) -> Seq<char>
    decreases n,
{
    if n < 10 {
        seq![digit_char(n as int)]
    } else {
        dec_nat(n / 10).push(digit_char((n % 10) as int))
    }
}

/// Decimal representation of an integer: the representation of its
/// magnitude, preceded by a minus sign when it is negative.
pub open spec fn dec_int(n: int) -> Seq<char> {
    if n < 0 {
        seq!['-'] + dec_nat((-n) as nat)
    } else {
        dec_nat(n as nat)
    }
}

/// Whether `c` is a decimal digit (code points 48 through 57).
pub open spec fn is_dec_digit(c: char) -> bool {
    48 <= c as int && c as int <= 57
}

/// The numeric value of a digit character.
pub open spec fn digit_val(c: char) -> int {
    c as int - 48
}

/// Whether every character of `s` is a decimal digit.
pub open spec fn all_digits(s: Seq<char>) -> bool {
    forall|i: int| 0 <= i < s.len() ==> is_dec_digit(s[i])
}

/// The numeric value of a digit string, most significant digit first.
pub open spec fn digits_val(s: Seq<char>) -> int
    decreases s.len(),
{
    if s.len() == 0 {
        0
    } else {
        digits_val(s.drop_last()) * 10 + digit_val(s.last())
    }
}

/// Whether `s` is the canonical decimal form of a natural number:
/// nonempty, digits only, and no leading zero except for `0` itself.
pub open spec fn canonical_digits(s: Seq<char>) -> bool {
    s.len() > 0 && all_digits(s) && (s.len() > 1 ==> s[0] as int != 48)
}

/// The integer whose canonical decimal form is `s`, when `s` is such a form
/// and the value fits in an `i64`; `None` otherwise.
pub open spec fn parse_dec(s: Seq<char>) -> Option<i64> {
    if canonical_digits(s) && digits_val(s) <= i64::MAX as int {
        Some(digits_val(s) as i64)
    } else if s.len() >= 2 && s[0] == '-' && canonical_digits(s.skip(1)) && digits_val(s.skip(1)) > 0
        && -digits_val(s.skip(1)) >= i64::MIN as int {
        Some((-digits_val(s.skip(1))) as i64)
    } else {
        None
    }
}

/// Ten to the power `e`.
pub open spec fn pow10(e: nat) -> int
    decreases e,
{
    if e == 0 {
        1
    } else {
        10 * pow10((e - 1) as nat)
    }
}

pub proof fn lemma_pow10_pos(e: nat)
    ensures
        pow10(e) >= 1,
    decreases e,
{
    if e > 0 {
        lemma_pow10_pos((e - 1) as nat);
    }
}

pub proof fn lemma_pow10_increases(a: nat, b: nat)
    requires
        a <= b,
    ensures
        pow10(a) <= pow10(b),
        pow10(a) >= 1,
    decreases b,
{
    lemma_pow10_pos(a);
    if a < b {
        lemma_pow10_increases(a, (b - 1) as nat);
        lemma_pow10_pos((b - 1) as nat);
    }
}

/// A digit string's value is nonnegative and below ten to its length.
pub proof fn lemma_digits_val_upper(s: Seq<char>)
    requires
        all_digits(s),
    ensures
        0 <= digits_val(s) < pow10(s.len()),
    decreases s.len(),
{
    if s.len() > 0 {
        assert(all_digits(s.drop_last()));
        lemma_digits_val_upper(s.drop_last());
    }
}

/// A digit string without a leading zero has a value of at least
/// ten to one less than its length.
pub proof fn lemma_digits_val_lower(s: Seq<char>)
    requires
        all_digits(s),
        s.len() > 0,
        s[0] as int != 48,
    ensures
        digits_val(s) >= pow10((s.len() - 1) as nat),
    decreases s.len(),
{
    if s.len() == 1 {
        assert(digit_val(s[0]) >= 1);
    } else {
        assert(all_digits(s.drop_last()));
        assert(s.drop_last()[0] == s[0]);
        lemma_digits_val_lower(s.drop_last());
        lemma_digits_val_upper(s);
    }
}

fn digit_str(d: u64) -> (r: &'static str)
    requires
        d < 10,
    ensures
        r@ == seq![digit_char(d as int)],
{
    proof {
        reveal_strlit("0");
        reveal_strlit("1");
        reveal_strlit("2");
        reveal_strlit("3");
        reveal_strlit("4");
        reveal_strlit("5");
        reveal_strlit("6");
        reveal_strlit("7");
        reveal_strlit("8");
        reveal_strlit("9");
    }
    let r: &'static str = match d {
        0 => "0",
        1 => "1",
        2 => "2",
        3 => "3",
        4 => "4",
        5 => "5",
        6 => "6",
        7 => "7",
        8 => "8",
        _ => "9",
    };
    proof {
        assert(r@ =~= seq![digit_char(d as int)]);
    }
    r
}

/// Formats a natural number in its canonical decimal form.
pub fn u64_to_string(n: u64) -> (r: String)
    ensures
        r@ == dec_nat(n as nat),
    decreases n,
{
    if n < 10 {
        String::from_str(digit_str(n))
    } else {
        let mut s = u64_to_string(n / 10);
        s.append(digit_str(n % 10));
        proof {
            assert(s@ =~= dec_nat(n as nat));
        }
        s
    }
}

/// Formats an integer in its canonical decimal form.
pub fn i64_to_string(n: i64) -> (r: String)
    ensures
        r@ == dec_int(n as int),
{
    if n >= 0 {
        u64_to_string(n as u64)
    } else {
        let wide: i128 = -(n as i128);
        let mag: u64 = wide as u64;
        let mut s = String::from_str("-");
        s.append(u64_to_string(mag).as_str());
        proof {
            reveal_strlit("-");
            assert(s@ =~= dec_int(n as int));
        }
        s
    }
}

/// Parses a string that is the canonical decimal form of an `i64`;
/// rejects every other string (leading zeros, signs other than a single
/// leading minus, empty input, values out of range).
pub fn parse_i64(s: &str) -> (r: Option<i64>)
    ensures
        r == parse_dec(s@),
{
    let n = s.unicode_len();
    if n == 0 {
        return None;
    }
    let neg = s.get_char(0) == '-';
    let start: usize = if neg {
        1
    } else {
        0
    };
    if n == start {
        return None;
    }
    let ghost digits = if neg { s@.skip(1) } else { s@ };
    let first = s.get_char(start);
    let first_code = first as u32;
    proof {
        assert(digits[0] == s@[start as int]);
        assert(first_code as int == first as int);
    }
    if first_code < 48 || first_code > 57 {
        proof {
            assert(!is_dec_digit(digits[0]));
            if neg {
                assert(!is_dec_digit(s@[0]));
            }
        }
        return None;
    }
    if first_code == 48 && (n > start + 1 || neg) {
        proof {
            if neg {
                assert(!is_dec_digit(s@[0]));
                if n == start + 1 {
                    assert(digits =~= seq![first]);
                    reveal_with_fuel(digits_val, 3);
                    assert(digits.drop_last() =~= Seq::<char>::empty());
                    assert(digits_val(digits) == digit_val(first));
                }
            }
        }
        return None;
    }
    if n - start > 19 {
        proof {
            if neg {
                assert(!is_dec_digit(s@[0]));
            }
            if all_digits(digits) {
                lemma_digits_val_lower(digits);
                lemma_pow10_increases(19, (digits.len() - 1) as nat);
                assert(pow10(19) == 10000000000000000000) by {
                    reveal_with_fuel(pow10, 20);
                }
            }
        }
        return None;
    }
    let mut acc: u64 = 0;
    let mut i = start;
    while i < n
        invariant
            start <= i <= n,
            n == s@.len(),
            start == if neg { 1int } else { 0int },
            n - start <= 19,
            digits == if neg { s@.skip(1) } else { s@ },
            digits.len() == n - start,
            neg ==> s@[0] == '-',
            is_dec_digit(digits[0]),
            digits.len() > 1 ==> digits[0] as int != 48,
            neg ==> digits[0] as int != 48,
            all_digits(digits.subrange(0, i - start)),
            acc == digits_val(digits.subrange(0, i - start)),
        decreases n - i,
    {
        let c = s.get_char(i);
        let code = c as u32;
        proof {
            assert(digits[i - start] == s@[i as int]);
            assert(code as int == c as int);
        }
        if code < 48 || code > 57 {
            proof {
                assert(!is_dec_digit(digits[i - start]));
                if neg {
                    assert(!is_dec_digit(s@[0]));
                }
            }
            return None;
        }
        let d = (code - 48) as u64;
        proof {
            let prefix = digits.subrange(0, i - start);
            let extended = digits.subrange(0, i + 1 - start);
            assert(extended.drop_last() =~= prefix);
            assert(extended.last() == c);
            assert(digit_val(c) == d);
            lemma_digits_val_upper(prefix);
            lemma_pow10_increases(prefix.len() as nat, 18);
            assert(pow10(18) == 1000000000000000000) by {
                reveal_with_fuel(pow10, 19);
            }
            assert(all_digits(extended));
            assert(digits_val(extended) == digits_val(prefix) * 10 + digit_val(c));
        }
        acc = acc * 10 + d;
        i = i + 1;
    }
    proof {
        assert(digits.subrange(0, (n - start) as int) =~= digits);
        assert(all_digits(digits) && acc == digits_val(digits));
        assert(digits[0] == first);
        assert(canonical_digits(digits));
        lemma_digits_val_upper(digits);
        if neg {
            assert(s@[0] == '-');
            assert(!is_dec_digit(s@[0]));
            lemma_digits_val_lower(digits);
            lemma_pow10_increases(0, (digits.len() - 1) as nat);
        } else {
            assert(s@[0] as int != 45);
            assert(s@[0] != '-');
        }
    }
    if neg {
        if acc > 9223372036854775808u64 {
            return None;
        }
        if acc == 9223372036854775808u64 {
            return Some(i64::MIN);
        }
        Some(-(acc as i64))
    } else {
        if acc > 9223372036854775807u64 {
            return None;
        }
        Some(acc as i64)
    }
}

} // verus!
