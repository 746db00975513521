//! Numbers in decimal notation.

use vstd::prelude::*;
use vstd::string::StringExecFns;

use crate::big;
use crate::text;
use crate::text::chars_of;

verus! {

/// The character for a digit below ten.
pub open spec fn digit_char(d: int) -> char {
    (d + ('0' as int)) as char
}

/// A natural number in decimal, without leading zeros.
pub open spec fn nat_text(n: nat) -> Seq<char>
    decreases n,
{
    if n < 10 {
        seq![digit_char(n as int)]
    } else {
        nat_text(n / 10).push(digit_char((n % 10) as int))
    }
}

/// An integer in decimal, with a minus sign when it is negative.
pub open spec fn int_text(n: int) -> Seq<char> {
    if n < 0 {
        seq!['-'] + nat_text((-n) as nat)
    } else {
        nat_text(n as nat)
    }
}

/// The character for a digit.
fn digit(d: u64) -> (c: char)
    requires
        d < 10,
    ensures
        c == digit_char(d as int),
{
    match d {
        0 => '0',
        1 => '1',
        2 => '2',
        3 => '3',
        4 => '4',
        5 => '5',
        6 => '6',
        7 => '7',
        8 => '8',
        _ => '9',
    }
}

/// `n` in decimal.
pub fn u64_text(n: u64) -> (s: String)
    ensures
        s@ == nat_text(n as nat),
    decreases n,
{
    let mut s = if n < 10 {
        String::new()
    } else {
        u64_text(n / 10)
    };
    s.push(digit(n % 10));
    s
}

/// `n` in decimal.
pub fn i64_text(n: i64) -> (s: String)
    ensures
        s@ == int_text(n as int),
{
    if n < 0 {
        let magnitude: u64 = if n == i64::MIN {
            0x8000_0000_0000_0000
        } else {
            (-n) as u64
        };
        proof {
            reveal_strlit("-");
            assert("-"@ =~= seq!['-']);
        }
        "-".to_owned().concat(u64_text(magnitude).as_str())
    } else {
        u64_text(n as u64)
    }
}

/// A natural number's text is made of digits.
pub proof fn lemma_nat_text_digits(n: nat)
    ensures
        nat_text(n).len() > 0,
        forall|i: int| 0 <= i < nat_text(n).len() ==> '0' <= #[trigger] nat_text(n)[i] <= '9',
    decreases n,
{
    if n >= 10 {
        lemma_nat_text_digits(n / 10);
    }
}

/// No two natural numbers have the same text.
pub proof fn lemma_nat_text_injective(a: nat, b: nat)
    requires
        nat_text(a) == nat_text(b),
    ensures
        a == b,
    decreases a,
{
    lemma_nat_text_digits(a / 10);
    lemma_nat_text_digits(b / 10);
    assert(nat_text(a).last() == nat_text(b).last());
    if a >= 10 {
        assert(nat_text(a).drop_last() =~= nat_text(a / 10));
        assert(nat_text(a).len() > 1);
        assert(b >= 10);
        assert(nat_text(b).drop_last() =~= nat_text(b / 10));
        lemma_nat_text_injective(a / 10, b / 10);
        assert(nat_text(a).last() == digit_char((a % 10) as int));
        assert(nat_text(b).last() == digit_char((b % 10) as int));
        assert(digit_char((a % 10) as int) as int == a % 10 + 48);
        assert(digit_char((b % 10) as int) as int == b % 10 + 48);
    } else {
        assert(nat_text(a).len() == 1);
        assert(b < 10) by {
            if b >= 10 {
                assert(nat_text(b).len() > 1);
            }
        }
        assert(nat_text(a).last() == digit_char(a as int));
        assert(nat_text(b).last() == digit_char(b as int));
        assert(digit_char(a as int) as int == a + 48);
        assert(digit_char(b as int) as int == b + 48);
    }
}

/// The natural number that a text stands for: digits, with a plus sign before
/// them or without.
pub open spec fn nat_named(s: Seq<char>) -> Option<nat> {
    let d = if s.len() > 1 && s[0] == '+' {
        s.skip(1)
    } else {
        s
    };
    if d.len() > 0 && big::all_decimal(d) {
        Some(big::whole(d))
    } else {
        None
    }
}

/// The integer that a text stands for: digits, with a sign before them or
/// without.
pub open spec fn int_named(s: Seq<char>) -> Option<int> {
    if s.len() > 1 && s[0] == '-' {
        if big::all_decimal(s.skip(1)) {
            Some(-(big::whole(s.skip(1)) as int))
        } else {
            None
        }
    } else {
        match nat_named(s) {
            Some(n) => Some(n as int),
            None => None,
        }
    }
}

/// An integer within bounds that a text stands for.
pub open spec fn int_within(s: Seq<char>, low: int, high: int) -> Option<int> {
    match int_named(s) {
        Some(n) if low <= n <= high => Some(n),
        _ => None,
    }
}

proof fn lemma_whole_grows(s: Seq<char>, i: int)
    requires
        0 <= i <= s.len(),
        big::all_decimal(s),
    ensures
        big::whole(s.take(i)) <= big::whole(s),
    decreases s.len() - i,
{
    if i < s.len() {
        lemma_whole_grows(s, i + 1);
        assert(s.take(i + 1).drop_last() =~= s.take(i));
        assert(text::is_digit(s[i]));
    } else {
        assert(s.take(i) =~= s);
    }
}

/// The number that the digits from `from` on stand for, up to a largest one.
fn digits_from(c: &Vec<char>, from: usize, max: u64) -> (r: Option<u64>)
    requires
        from < c@.len(),
    ensures
        match r {
            Some(n) => n <= max && big::all_decimal(c@.skip(from as int)) && n == big::whole(
                c@.skip(from as int),
            ),
            None => !big::all_decimal(c@.skip(from as int)) || big::whole(c@.skip(from as int))
                > max,
        },
{
    let ghost d = c@.skip(from as int);
    let mut n: u128 = 0;
    let mut i: usize = from;
    assert(d.take(0) =~= seq![]);
    while i < c.len()
        invariant
            from <= i <= c@.len(),
            d == c@.skip(from as int),
            n == big::whole(d.take(i - from)),
            n <= max,
            big::all_decimal(d.take(i - from)),
        decreases c@.len() - i,
    {
        let x = c[i];
        let ghost k = i - from;
        assert(d[k] == x);
        assert(d.take(k + 1).drop_last() =~= d.take(k));
        assert(d.take(k + 1).last() == x);
        if x < '0' || x > '9' {
            assert(!text::is_digit(d[k]));
            return None;
        }
        n = n * 10 + (x as u32 - 48) as u128;
        assert(n == big::whole(d.take(k + 1)));
        assert(big::all_decimal(d.take(k + 1))) by {
            assert forall|j: int| 0 <= j < k + 1 implies text::is_digit(
                #[trigger] d.take(k + 1)[j],
            ) by {
                if j < k {
                    assert(text::is_digit(d.take(k)[j]));
                }
            }
        }
        if n > max as u128 {
            proof {
                if big::all_decimal(d) {
                    lemma_whole_grows(d, k + 1);
                }
            }
            return None;
        }
        i = i + 1;
    }
    assert(d.take(i - from) =~= d);
    Some(n as u64)
}

/// The natural number that a text stands for, up to a largest one.
pub fn parse_nat(s: &str, max: u64) -> (r: Option<u64>)
    ensures
        match (r, nat_named(s@)) {
            (Some(n), Some(m)) => n == m && m <= max,
            (None, Some(m)) => m > max,
            (r, None) => r is None,
        },
{
    let c = chars_of(s);
    if c.len() == 0 {
        return None;
    }
    if c.len() > 1 && c[0] == '+' {
        digits_from(&c, 1, max)
    } else {
        assert(c@.skip(0) =~= c@);
        digits_from(&c, 0, max)
    }
}

/// The integer that a text stands for.
pub fn parse_i64(s: &str) -> (r: Option<i64>)
    ensures
        match r {
            Some(n) => int_within(s@, i64::MIN as int, i64::MAX as int) == Some(n as int),
            None => int_within(s@, i64::MIN as int, i64::MAX as int) is None,
        },
{
    let c = chars_of(s);
    if c.len() > 1 && c[0] == '-' {
        match digits_from(&c, 1, 0x8000_0000_0000_0000) {
            Some(n) => {
                if n == 0x8000_0000_0000_0000 {
                    Some(i64::MIN)
                } else {
                    Some(-(n as i64))
                }
            },
            None => None,
        }
    } else {
        match parse_nat(s, 0x7FFF_FFFF_FFFF_FFFF) {
            Some(n) => Some(n as i64),
            None => None,
        }
    }
}

proof fn lemma_nat_text_value(n: nat)
    ensures
        big::all_decimal(nat_text(n)),
        big::whole(nat_text(n)) == n,
    decreases n,
{
    let s = nat_text(n);
    lemma_nat_text_digits(n);
    assert(big::all_decimal(s)) by {
        assert forall|i: int| 0 <= i < s.len() implies text::is_digit(#[trigger] s[i]) by {}
    }
    if n >= 10 {
        lemma_nat_text_value(n / 10);
        assert(s.drop_last() =~= nat_text(n / 10));
        assert(s.last() == digit_char((n % 10) as int));
        assert(digit_char((n % 10) as int) as int == n % 10 + 48);
    } else {
        assert(s.drop_last() =~= seq![]);
        assert(big::whole(s.drop_last()) == 0);
        assert(s.last() == digit_char(n as int));
        assert(digit_char(n as int) as int == n + 48);
    }
    assert(big::whole(s) == 10 * big::whole(s.drop_last()) + (s.last() as int - 48));
}

/// A number reads back as it was written.
pub proof fn a_written_number_reads_back(n: int)
    ensures
        int_named(int_text(n)) == Some(n),
        n >= 0 ==> nat_named(int_text(n)) == Some(n as nat),
{
    let m = if n < 0 {
        (-n) as nat
    } else {
        n as nat
    };
    lemma_nat_text_value(m);
    lemma_nat_text_digits(m);
    if n < 0 {
        assert(int_text(n).skip(1) =~= nat_text(m));
    }
}

/// A number is written with the fewest digits: none in front is a zero, but for zero itself,
/// and a minus sign stands before a number below zero alone.
pub proof fn a_number_is_written_without_padding(n: nat, z: int)
    ensures
        n > 0 ==> nat_text(n)[0] != '0',
        nat_text(0) == seq!['0'],
        big::whole(nat_text(n)) == n,
        z >= 0 ==> int_text(z) == nat_text(z as nat),
        z < 0 ==> int_text(z) == seq!['-'] + nat_text((-z) as nat),
    decreases n,
{
    a_written_number_reads_back(n as int);
    lemma_nat_text_digits(n);
    lemma_first_digit(n);
    assert(nat_text(0) =~= seq!['0']);
    if nat_text(n)[0] == '+' {
        assert(false);
    }
}

proof fn lemma_first_digit(n: nat)
    ensures
        nat_text(n).len() > 0,
        n > 0 ==> nat_text(n)[0] != '0',
    decreases n,
{
    if n >= 10 {
        lemma_first_digit(n / 10);
    }
}

/// Digits stand for their number, with a plus sign before them or without, and a minus sign
/// before them makes it negative.
pub proof fn digits_stand_for_their_number(d: Seq<char>)
    requires
        d.len() > 0,
        forall|i: int| 0 <= i < d.len() ==> '0' <= #[trigger] d[i] <= '9',
    ensures
        nat_named(d) == Some(big::whole(d)),
        nat_named(seq!['+'] + d) == Some(big::whole(d)),
        nat_named(seq!['-'] + d) is None,
        int_named(d) == Some(big::whole(d) as int),
        int_named(seq!['+'] + d) == Some(big::whole(d) as int),
        int_named(seq!['-'] + d) == Some(-(big::whole(d) as int)),
{
    assert(big::all_decimal(d));
    let plus = seq!['+'] + d;
    let minus = seq!['-'] + d;
    assert(plus.skip(1) =~= d);
    assert(minus.skip(1) =~= d);
    assert(d[0] != '+' && d[0] != '-');
    assert(minus[0] == '-');
    assert(plus[0] == '+');
    if big::all_decimal(minus) {
        assert(crate::text::is_digit(minus[0]));
    }
}

/// A text with anything among its digits, or without a digit, is no number.
pub proof fn anything_else_is_no_number(s: Seq<char>, k: int)
    requires
        s.len() > 0 ==> 0 <= k < s.len() && !('0' <= s[k] <= '9'),
        s.len() > 1 ==> k > 0 || (s[0] != '+' && s[0] != '-'),
    ensures
        nat_named(s) is None,
        int_named(s) is None,
{
    if s.len() > 0 {
        if big::all_decimal(s) {
            assert(crate::text::is_digit(s[k]));
        }
        if k > 0 {
            assert(s.skip(1)[k - 1] == s[k]);
            if big::all_decimal(s.skip(1)) {
                assert(crate::text::is_digit(s.skip(1)[k - 1]));
            }
        }
    }
}

/// A number within bounds is read, and one beyond them is not.
pub proof fn only_numbers_within_bounds_are_read(n: int, low: int, high: int)
    ensures
        low <= n <= high ==> int_within(int_text(n), low, high) == Some(n),
        n < low || high < n ==> int_within(int_text(n), low, high) is None,
{
    a_written_number_reads_back(n);
}

} // verus!
