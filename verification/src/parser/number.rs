//! Numbers and flags in decimal text.

use vstd::prelude::*;

verus! {

pub open spec fn is_digit(c: char) -> bool {
    '0' <= c && c <= '9'
}

pub open spec fn all_digits(s: Seq<char>) -> bool {
    forall|i: int| 0 <= i < s.len() ==> is_digit(#[trigger] s[i])
}

/// The number that a run of decimal digits stands for.
pub open spec fn digits_value(s: Seq<char>) -> int
    decreases s.len(),
{
    if s.len() == 0 {
        0
    } else {
        10 * digits_value(s.drop_last()) + (s.last() as int - '0' as int)
    }
}

/// The number that `s` stands for: digits, at least one, behind an optional sign.
pub open spec fn int_of(s: Seq<char>) -> Option<int> {
    let negative = s.len() > 0 && s[0] == '-';
    let digits = if s.len() > 0 && (s[0] == '-' || s[0] == '+') {
        s.skip(1)
    } else {
        s
    };
    if digits.len() == 0 || !all_digits(digits) {
        None
    } else if negative {
        Some(-digits_value(digits))
    } else {
        Some(digits_value(digits))
    }
}

/// The 32-bit number that `s` stands for, if it stands for one.
pub open spec fn i32_of(s: Seq<char>) -> Option<i32> {
    match int_of(s) {
        Some(n) => if i32::MIN <= n <= i32::MAX {
            Some(n as i32)
        } else {
            None
        },
        None => None,
    }
}

/// The flag that `s` stands for: `1` is set, `0` is clear.
pub open spec fn flag_of(s: Seq<char>) -> Option<bool> {
    if s == seq!['1'] {
        Some(true)
    } else if s == seq!['0'] {
        Some(false)
    } else {
        None
    }
}

proof fn lemma_digits_monotonic(s: Seq<char>, k: int)
    requires
        all_digits(s),
        0 <= k <= s.len(),
    ensures
        0 <= digits_value(s.take(k)) <= digits_value(s),
    decreases s.len(),
{
    if s.len() == 0 {
        assert(s.take(k) == s);
    } else if k == s.len() {
        assert(s.take(k) == s);
        lemma_digits_monotonic(s.drop_last(), s.len() - 1);
        assert(s.drop_last().take(s.len() - 1) == s.drop_last());
        assert(is_digit(s[s.len() - 1]));
    } else {
        assert(s.drop_last().take(k) == s.take(k));
        lemma_digits_monotonic(s.drop_last(), k);
        assert(is_digit(s[s.len() - 1]));
    }
}

/// Reads a 32-bit number.
pub fn parse_i32(s: &[char]) -> (n: Option<i32>)
    ensures
        n == i32_of(s@),
{
    let negative: bool = s.len() > 0 && s[0] == '-';
    let start: usize = if s.len() > 0 && (s[0] == '-' || s[0] == '+') {
        1
    } else {
        0
    };
    let ghost digits = s@.skip(start as int);
    assert(start == 0 ==> digits == s@);
    if start == s.len() {
        return None;
    }
    let mut value: i64 = 0;
    let mut in_range: bool = true;
    let mut i: usize = start;
    while i < s.len()
        invariant
            start <= i <= s@.len(),
            start == (if s@.len() > 0 && (s@[0] == '-' || s@[0] == '+') {
                1int
            } else {
                0int
            }),
            digits == s@.skip(start as int),
            start == 0 ==> digits == s@,
            all_digits(digits.take(i - start)),
            in_range ==> value == digits_value(digits.take(i - start)) && 0 <= value <= 0x8000_0000,
            !in_range ==> digits_value(digits.take(i - start)) > 0x8000_0000,
        decreases s@.len() - i,
    {
        let c: char = s[i];
        let ghost seen = digits.take(i - start);
        let ghost next = digits.take(i - start + 1);
        assert(next.drop_last() == seen);
        assert(next.last() == c);
        if c < '0' || c > '9' {
            assert(!is_digit(digits[i - start]));
            return None;
        }
        assert forall|j: int| 0 <= j < next.len() implies is_digit(#[trigger] next[j]) by {
            if j < seen.len() {
                assert(next[j] == seen[j]);
            }
        }
        proof {
            lemma_digits_monotonic(next, seen.len() as int);
            assert(next.take(seen.len() as int) == seen);
        }
        if in_range {
            value = 10 * value + (c as u32 - '0' as u32) as i64;
            if value > 0x8000_0000 {
                in_range = false;
            }
        }
        i += 1;
    }
    assert(digits.take(i - start) == digits);
    if !in_range {
        None
    } else if negative {
        Some((-value) as i32)
    } else if value == 0x8000_0000 {
        None
    } else {
        Some(value as i32)
    }
}

/// Reads a flag.
pub fn parse_flag(s: &[char]) -> (flag: Option<bool>)
    ensures
        flag == flag_of(s@),
{
    if s.len() == 1 && s[0] == '1' {
        assert(s@ == seq!['1']);
        Some(true)
    } else if s.len() == 1 && s[0] == '0' {
        assert(s@ == seq!['0']);
        assert(s@[0] != seq!['1'][0]);
        Some(false)
    } else {
        proof {
            if s@ == seq!['1'] {
                assert(s@[0] == '1');
            }
            if s@ == seq!['0'] {
                assert(s@[0] == '0');
            }
        }
        None
    }
}

/// The decimal digit with the value `d`.
pub open spec fn digit(d: int) -> char {
    ('0' as int + d) as char
}

/// How a natural number is written in decimal.
pub open spec fn decimal_nat(n: nat) -> Seq<char>
    decreases n,
{
    if n < 10 {
        seq![digit(n as int)]
    } else {
        decimal_nat(n / 10).push(digit((n % 10) as int))
    }
}

/// How a number is written in decimal.
pub open spec fn decimal(n: int) -> Seq<char> {
    if n < 0 {
        seq!['-'] + decimal_nat((-n) as nat)
    } else {
        decimal_nat(n as nat)
    }
}

proof fn lemma_decimal_nat(n: nat)
    ensures
        decimal_nat(n).len() > 0,
        all_digits(decimal_nat(n)),
        digits_value(decimal_nat(n)) == n,
    decreases n,
{
    let s = decimal_nat(n);
    if n < 10 {
        assert(s.drop_last() == Seq::<char>::empty());
        assert(digits_value(s.drop_last()) == 0);
        assert(s.last() == digit(n as int));
    } else {
        lemma_decimal_nat(n / 10);
        assert(s.drop_last() == decimal_nat(n / 10));
        assert(s.last() == digit((n % 10) as int));
        assert forall|i: int| 0 <= i < s.len() implies is_digit(#[trigger] s[i]) by {
            if i < s.len() - 1 {
                assert(s[i] == decimal_nat(n / 10)[i]);
            }
        }
    }
}

/// A number that is written in decimal reads back as itself where it fits into 32
/// bits, and is refused where it does not.
pub proof fn law_numbers_read_back(n: int)
    ensures
        i32::MIN <= n <= i32::MAX ==> i32_of(decimal(n)) == Some(n as i32),
        !(i32::MIN <= n <= i32::MAX) ==> i32_of(decimal(n)) is None,
{
    let s = decimal(n);
    if n < 0 {
        lemma_decimal_nat((-n) as nat);
        assert(s[0] == '-');
        assert(s.skip(1) == decimal_nat((-n) as nat));
    } else {
        lemma_decimal_nat(n as nat);
        assert(is_digit(s[0]));
    }
}

proof fn lemma_leading_zero(s: Seq<char>)
    requires
        all_digits(s),
    ensures
        all_digits(seq!['0'] + s),
        digits_value(seq!['0'] + s) == digits_value(s),
    decreases s.len(),
{
    let z = seq!['0'] + s;
    assert forall|i: int| 0 <= i < z.len() implies is_digit(#[trigger] z[i]) by {
        if i > 0 {
            assert(z[i] == s[i - 1]);
        }
    }
    if s.len() == 0 {
        assert(z.drop_last() == Seq::<char>::empty());
        assert(digits_value(z.drop_last()) == 0);
        assert(z.last() == '0');
    } else {
        let front = s.drop_last();
        assert forall|i: int| 0 <= i < front.len() implies is_digit(#[trigger] front[i]) by {
            assert(front[i] == s[i]);
        }
        lemma_leading_zero(front);
        assert(z.drop_last() == seq!['0'] + front);
        assert(z.last() == s.last());
    }
}

/// Zeros in front of the digits, and a plus sign in front of them, change nothing.
pub proof fn law_leading_zeros_do_not_count(s: Seq<char>)
    requires
        s.len() > 0,
        forall|i: int| 0 <= i < s.len() ==> '0' <= #[trigger] s[i] && s[i] <= '9',
    ensures
        i32_of(seq!['0'] + s) == i32_of(s),
        i32_of(seq!['+'] + s) == i32_of(s),
        i32_of(seq!['-', '0'] + s) == i32_of(seq!['-'] + s),
{
    assert(all_digits(s));
    lemma_leading_zero(s);
    let z = seq!['0'] + s;
    let plus = seq!['+'] + s;
    let minus = seq!['-'] + s;
    let minus_z = seq!['-', '0'] + s;
    assert('0' <= s[0] && s[0] <= '9');
    assert(z[0] == '0');
    assert(plus[0] == '+' && plus.skip(1) == s);
    assert(minus[0] == '-' && minus.skip(1) == s);
    assert(minus_z[0] == '-' && minus_z.skip(1) == z);
}

/// What is read as a number is made of digits alone, at least one, but for a sign
/// in front of them.
pub proof fn law_only_digits_are_read(s: Seq<char>)
    ensures
        i32_of(s) is Some ==> s.len() > 0 && (s[0] == '-' || s[0] == '+' ==> s.len() > 1) && (s[0]
            == '-' || s[0] == '+' || ('0' <= s[0] && s[0] <= '9')) && forall|i: int|
            1 <= i < s.len() ==> '0' <= #[trigger] s[i] && s[i] <= '9',
{
    if i32_of(s) is Some {
        let signed = s[0] == '-' || s[0] == '+';
        let digits = if signed {
            s.skip(1)
        } else {
            s
        };
        assert(all_digits(digits));
        assert(!signed ==> is_digit(digits[0]));
        assert forall|i: int| 1 <= i < s.len() implies '0' <= #[trigger] s[i] && s[i] <= '9' by {
            if signed {
                assert(is_digit(digits[i - 1]));
            } else {
                assert(is_digit(digits[i]));
            }
        }
    }
}

/// Only `1` and `0` are read as flags, as set and as clear.
pub proof fn law_flags_are_one_and_zero(s: Seq<char>)
    ensures
        flag_of(s) == Some(true) <==> s.len() == 1 && s[0] == '1',
        flag_of(s) == Some(false) <==> s.len() == 1 && s[0] == '0',
{
    if s.len() == 1 {
        assert(s == seq![s[0]]);
        assert(s[0] == '0' ==> seq!['1'][0] != s[0]);
    }
}

} // verus!
