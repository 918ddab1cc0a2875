//! Whole numbers in decimal notation.

use vstd::prelude::*;

use crate::text;

verus! {

pub open spec fn is_digit(c: char) -> bool {
    '0' <= c <= '9'
}

/// The number that a row of decimal digits stands for.
pub open spec fn number_of(digits: Seq<char>) -> nat
    decreases digits.len(),
{
    if digits.len() == 0 {
        0
    } else {
        (number_of(digits.drop_last()) * 10 + (digits.last() as u32 - '0' as u32)) as nat
    }
}

pub open spec fn all_digits(s: Seq<char>) -> bool {
    forall|i: int| 0 <= i < s.len() ==> is_digit(#[trigger] s[i])
}

/// The digits of a numeral: what follows the `+` that it may start with.
pub open spec fn digits_of(s: Seq<char>) -> Seq<char> {
    if s.len() > 0 && s[0] == '+' {
        s.drop_first()
    } else {
        s
    }
}

/// The number below 2^32 that `s` stands for: an optional `+` and one or more
/// digits.
pub open spec fn u32_of(s: Seq<char>) -> Option<u32> {
    let digits = digits_of(s);
    if digits.len() > 0 && all_digits(digits) && number_of(digits) <= u32::MAX {
        Some(number_of(digits) as u32)
    } else {
        None
    }
}

pub open spec fn digit_char(d: nat) -> char {
    ('0' as u32 + d) as char
}

/// `n` in decimal digits, without leading zeros.
pub open spec fn decimal_of(n: nat) -> Seq<char>
    decreases n,
{
    if n < 10 {
        seq![digit_char(n)]
    } else {
        decimal_of(n / 10).push(digit_char(n % 10))
    }
}

/// A number is read back from its digits.
pub proof fn lemma_decimal_reads_back(n: nat)
    ensures
        decimal_of(n).len() > 0,
        all_digits(decimal_of(n)),
        number_of(decimal_of(n)) == n,
    decreases n,
{
    if n < 10 {
        assert(seq![digit_char(n)].drop_last() =~= Seq::<char>::empty());
        assert(number_of(Seq::<char>::empty()) == 0);
    } else {
        lemma_decimal_reads_back(n / 10);
        let s = decimal_of(n / 10).push(digit_char(n % 10));
        assert(s.drop_last() =~= decimal_of(n / 10));
    }
}

/// The decimal notation of a number below 2^32 is the numeral of that number.
pub proof fn law_u32_numeral_reads_back(n: u32)
    ensures
        u32_of(decimal_of(n as nat)) == Some(n),
{
    lemma_decimal_reads_back(n as nat);
    let s = decimal_of(n as nat);
    assert(is_digit(s[0]));
}

/// More digits in front never make the number smaller.
proof fn lemma_number_grows(s: Seq<char>, k: int)
    requires
        0 <= k <= s.len(),
        all_digits(s),
    ensures
        number_of(s.take(k)) <= number_of(s),
    decreases s.len(),
{
    if k < s.len() {
        assert(is_digit(s.last()));
        assert forall|i: int| 0 <= i < s.drop_last().len() implies is_digit(
            #[trigger] s.drop_last()[i],
        ) by {
            assert(s.drop_last()[i] == s[i]);
        }
        lemma_number_grows(s.drop_last(), k);
        assert(s.drop_last().take(k) == s.take(k));
    } else {
        assert(s.take(k) == s);
    }
}

/// The number below 2^32 that `s` stands for.
pub fn parse_u32(s: &str) -> (r: Option<u32>)
    ensures
        r == u32_of(s@),
{
    let v = text::chars_of(s);
    let ghost digits = digits_of(s@);
    let from: usize = if v.len() > 0 && v[0] == '+' {
        1
    } else {
        0
    };
    assert(digits =~= s@.skip(from as int));
    if from == v.len() {
        return None;
    }
    let mut n: u64 = 0;
    let mut i: usize = from;
    assert(digits.take(0) =~= Seq::<char>::empty());
    while i < v.len()
        invariant
            v@ == s@,
            digits == digits_of(s@),
            digits == s@.skip(from as int),
            from <= i <= v@.len(),
            from < v@.len(),
            n == number_of(digits.take(i - from)),
            n <= u32::MAX,
            forall|k: int| 0 <= k < i - from ==> is_digit(#[trigger] digits[k]),
        decreases v@.len() - i,
    {
        let c = v[i];
        assert(c == digits[i - from]);
        if c < '0' || '9' < c {
            assert(!is_digit(digits[i - from]));
            return None;
        }
        proof {
            let next = digits.take(i - from + 1);
            assert(next.drop_last() == digits.take(i - from));
            assert(next.last() == c);
        }
        n = n * 10 + (c as u32 - '0' as u32) as u64;
        if n > u32::MAX as u64 {
            proof {
                if all_digits(digits) {
                    lemma_number_grows(digits, i - from + 1);
                }
            }
            return None;
        }
        i = i + 1;
    }
    proof {
        assert(digits.take(digits.len() as int) == digits);
    }
    Some(n as u32)
}

/// `n` in decimal digits, without leading zeros.
pub fn decimal(n: u64) -> (r: String)
    ensures
        r@ == decimal_of(n as nat),
    decreases n,
{
    let digit: u8 = (n % 10) as u8;
    let c = (48 + digit) as char;
    assert(c == digit_char((n % 10) as nat));
    if n < 10 {
        let mut r = String::new();
        r.push(c);
        assert(r@ =~= seq![c]);
        r
    } else {
        let mut r = decimal(n / 10);
        r.push(c);
        r
    }
}

/// Each digit behind a row of digits makes the number ten times as large and adds its own
/// value.
pub proof fn law_digits_have_weight(digits: Seq<char>, c: char)
    requires
        '0' <= c <= '9',
    ensures
        number_of(digits.push(c)) == 10 * number_of(digits) + (c as u32 - 48),
        number_of(Seq::empty()) == 0,
{
    assert(digits.push(c).drop_last() =~= digits);
}

/// A numeral holds nothing but digits, at least one, behind the sign it may start with; its
/// leading zeros do not matter, and neither does the sign.
pub proof fn law_numerals_are_digits(s: Seq<char>)
    ensures
        u32_of(s) is Some && s[0] != '+' ==> s.len() > 0 && forall|i: int|
            0 <= i < s.len() ==> '0' <= #[trigger] s[i] <= '9',
        s.len() > 0 && s[0] != '+' ==> u32_of(seq!['+'] + s) == u32_of(s),
        s.len() > 0 && (forall|i: int| 0 <= i < s.len() ==> '0' <= #[trigger] s[i] <= '9')
            && number_of(s) <= 4_294_967_295 ==> (u32_of(s) matches Some(n) && n == number_of(s)),
{
    assert((seq!['+'] + s).drop_first() =~= s);
}

} // verus!
