//! When a line of timed XML begins, as far as the renderer can tell: times in
//! milliseconds, in seconds, or in parts between colons. Numbers are read, weighed
//! and added in double precision.

use vstd::prelude::*;

use crate::big;
use crate::big::Big;
use crate::double;
use crate::double::{doubled_big, round_ratio, Double, Value};
use crate::lyrics_format;
use crate::lyrics_format::scan_digits;
use crate::text;
use crate::text::{chars_of, split, string_of};

verus! {

/// A decimal number: the mantissa times ten to the power of the exponent.
pub struct Decimal {
    pub negative: bool,
    pub mantissa: nat,
    pub exponent: int,
}

/// Zero.
pub open spec fn zero() -> Decimal {
    Decimal { negative: false, mantissa: 0, exponent: 0 }
}

/// The least magnitude that double precision does not hold: two to the power of
/// 1024, less half of the last place there.
pub open spec fn limit() -> nat {
    double::doubled(18_014_398_509_481_983, 970)
}

/// A text without its sign.
pub open spec fn unsigned_part(t: Seq<char>) -> Seq<char> {
    if t.len() > 0 && (t[0] == '-' || t[0] == '+') {
        t.skip(1)
    } else {
        t
    }
}

/// Whether a text starts with a minus sign.
pub open spec fn is_negative(t: Seq<char>) -> bool {
    t.len() > 0 && t[0] == '-'
}

/// The exponent that a text holds: digits, perhaps behind a sign.
pub open spec fn exponent_of(t: Seq<char>) -> Option<int> {
    let body = unsigned_part(t);
    if body.len() > 0 && big::all_decimal(body) {
        if is_negative(t) {
            Some(-(big::whole(body) as int))
        } else {
            Some(big::whole(body) as int)
        }
    } else {
        None
    }
}

/// The number that a text holds: perhaps a sign, then digits with perhaps a
/// point among them, before them or behind them, then perhaps an exponent.
pub open spec fn scientific(t: Seq<char>) -> Option<Decimal> {
    let body = unsigned_part(t);
    let a = lyrics_format::digit_run(body, 0) as int;
    let pointed = lyrics_format::has_at(body, a, '.');
    let b = if pointed {
        lyrics_format::digit_run(body, a + 1) as int
    } else {
        0
    };
    let end = if pointed {
        a + 1 + b
    } else {
        a
    };
    let digits = if pointed {
        body.take(a) + body.subrange(a + 1, end)
    } else {
        body.take(a)
    };
    let exponent = if end == body.len() {
        Some(0int)
    } else if body[end] == 'e' || body[end] == 'E' {
        exponent_of(body.skip(end + 1))
    } else {
        None
    };
    if a + b == 0 {
        None
    } else {
        match exponent {
            Some(x) => Some(
                Decimal {
                    negative: is_negative(t),
                    mantissa: big::whole(digits),
                    exponent: x - b,
                },
            ),
            None => None,
        }
    }
}

/// Whether the magnitude is below the limit of double precision.
pub open spec fn in_range(d: Decimal) -> bool {
    if d.exponent >= 0 {
        d.mantissa * big::pow10(d.exponent as nat) < limit()
    } else {
        d.mantissa < limit() * big::pow10((-d.exponent) as nat)
    }
}

/// The numerator of a number, in units of double precision.
pub open spec fn numerator(d: Decimal) -> nat {
    double::doubled(
        if d.exponent >= 0 {
            d.mantissa * big::pow10(d.exponent as nat)
        } else {
            d.mantissa
        },
        1074,
    )
}

/// The denominator of a number.
pub open spec fn denominator(d: Decimal) -> nat {
    if d.exponent >= 0 {
        1
    } else {
        big::pow10((-d.exponent) as nat)
    }
}

/// A number rounded to double precision, in its units.
pub open spec fn double_of(d: Decimal) -> int {
    double::signed(d.negative, double::rounded(numerator(d), denominator(d)))
}

/// The number that one part of a time stands for, in units of double precision. No
/// text at all is zero.
pub open spec fn number_of(t: Seq<char>) -> Option<int> {
    let s = text::trimmed(t);
    if s.len() == 0 {
        Some(0)
    } else {
        match scientific(s) {
            Some(d) => if in_range(d) {
                Some(double_of(d))
            } else {
                None
            },
            None => None,
        }
    }
}

/// A number with the milliseconds that one of it lasts.
pub open spec fn timed(weight: nat, t: Seq<char>) -> Option<Seq<(nat, int)>> {
    match number_of(t) {
        Some(n) => Some(seq![(weight, n)]),
        None => None,
    }
}

/// Two lists, where both are there.
pub open spec fn joined(
    a: Option<Seq<(nat, int)>>,
    b: Option<Seq<(nat, int)>>,
) -> Option<Seq<(nat, int)>> {
    match (a, b) {
        (Some(x), Some(y)) => Some(x + y),
        _ => None,
    }
}

/// The parts of a time: a number of milliseconds before `ms`, of seconds before
/// `s` or alone, or minutes and seconds, or hours, minutes and seconds, between
/// colons.
pub open spec fn time_parts(value: Seq<char>) -> Option<Seq<(nat, int)>> {
    let s = text::trimmed(value);
    let n = s.len();
    let pieces = text::split_on(s, ':');
    if n == 0 {
        None
    } else if n >= 2 && s[n - 2] == 'm' && s[n - 1] == 's' {
        timed(1, s.take(n - 2))
    } else if s[n - 1] == 's' {
        timed(1000, s.take(n - 1))
    } else if !s.contains(':') {
        timed(1000, s)
    } else if pieces.len() == 2 {
        joined(timed(60_000, pieces[0]), timed(1000, pieces[1]))
    } else if pieces.len() == 3 {
        joined(
            joined(timed(3_600_000, pieces[0]), timed(60_000, pieces[1])),
            timed(1000, pieces[2]),
        )
    } else {
        None
    }
}

/// One part in milliseconds: a number of them as it stands, and others weighed.
pub open spec fn weighed(part: (nat, int)) -> Double {
    if part.0 == 1 {
        Double::Finite(part.1)
    } else {
        double::product(part.1, part.0)
    }
}

/// The parts in milliseconds, added from the first on.
pub open spec fn total(parts: Seq<(nat, int)>) -> Double
    decreases parts.len(),
{
    if parts.len() == 0 {
        Double::Finite(0)
    } else if parts.len() == 1 {
        weighed(parts[0])
    } else {
        double::sum(total(parts.drop_last()), weighed(parts.last()))
    }
}

/// At least half a millisecond before the start.
pub open spec fn is_in_time(ms: Double) -> bool {
    match ms {
        Double::Finite(n) => 2 * n + double::one() >= 0,
        Double::Infinite { negative } => !negative,
        Double::NotANumber => false,
    }
}

/// Whether a time is one that the renderer can read and that does not round
/// below zero: at least half a millisecond before the start.
pub open spec fn is_begin(value: Seq<char>) -> bool {
    time_parts(value) matches Some(parts) && is_in_time(total(parts))
}

/// Whether a number is zero, or so near to it that double precision has nothing for
/// it: below ten to the power of minus four hundred.
spec fn vanishes(d: Decimal) -> bool {
    ||| d.mantissa == 0
    ||| d.exponent < 0 && d.mantissa * big::pow10(400) < big::pow10((-d.exponent) as nat)
}

/// What vanishes is in range and rounds to zero.
proof fn lemma_vanished(d: Decimal)
    requires
        vanishes(d),
    ensures
        in_range(d),
        double_of(d) == 0,
{
    let m = d.mantissa;
    double::lemma_doubled_below(359);
    assert(double::doubled(1, 1077) <= big::pow10(359));
    reveal_with_fuel(double::doubled, 4);
    assert(double::doubled(1, 1077) == 8 * double::one());
    lemma_limit();
    big::lemma_pow10_positive(291);
    big::lemma_pow10_positive(400);
    big::lemma_pow10_grows(359, 400);
    if d.exponent >= 0 {
        let p = big::pow10(d.exponent as nat);
        assert(m == 0);
        assert(m * p == 0) by (nonlinear_arith)
            requires
                m == 0,
        ;
        double::lemma_doubled_times(0, 1074);
        assert(double::doubled(1, 1074) * 0 == 0) by (nonlinear_arith);
        double::lemma_rounds_to_nothing(0, 1);
    } else {
        let q = big::pow10((-d.exponent) as nat);
        big::lemma_pow10_positive((-d.exponent) as nat);
        let (o, t, l) = (double::one(), big::pow10(400), limit());
        double::lemma_doubled_times(m, 1074);
        assert(2 * (o * m) < q) by (nonlinear_arith)
            requires
                m == 0 || m * t < q,
                8 * o <= t,
                q > 0,
        ;
        double::lemma_rounds_to_nothing(numerator(d), q);
        assert(m < l * q) by (nonlinear_arith)
            requires
                m == 0 || m * t < q,
                t >= 1,
                l >= 1,
                q > 0,
        ;
    }
}

/// A decimal number.
pub struct Number {
    negative: bool,
    mantissa: Big,
    exponent: i128,
}

/// An exponent beyond this is beyond every range.
pub const EXPONENT_CAP: i128 = 100_000_000_000_000_000_000;

impl Number {
    /// The exponent is small enough to count with.
    pub closed spec fn wf(&self) -> bool {
        self.mantissa.wf() && -4 * EXPONENT_CAP <= self.exponent <= 4 * EXPONENT_CAP
    }

    /// The number.
    pub closed spec fn view(&self) -> Decimal {
        Decimal {
            negative: self.negative,
            mantissa: self.mantissa@,
            exponent: self.exponent as int,
        }
    }
}

fn zero_number() -> (r: Number)
    ensures
        r.wf(),
        r@ == zero(),
{
    Number { negative: false, mantissa: Big::zero(), exponent: 0 }
}

/// An exponent, kept within the cap.
pub open spec fn capped(x: int) -> int {
    if x > EXPONENT_CAP {
        EXPONENT_CAP + 1
    } else if x < -EXPONENT_CAP {
        -EXPONENT_CAP - 1
    } else {
        x
    }
}

fn read_exponent(s: &Vec<char>) -> (r: Option<i128>)
    ensures
        match r {
            Some(x) => exponent_of(s@) is Some && x == capped(exponent_of(s@)->0),
            None => exponent_of(s@) is None,
        },
{
    let signed = s.len() > 0 && (s[0] == '-' || s[0] == '+');
    let negative = s.len() > 0 && s[0] == '-';
    let start: usize = if signed {
        1
    } else {
        0
    };
    let ghost body = unsigned_part(s@);
    assert(body =~= s@.skip(start as int));
    if start == s.len() {
        return None;
    }
    let mut acc: i128 = 0;
    let mut i: usize = start;
    assert(body.take(0) =~= Seq::empty());
    while i < s.len()
        invariant
            start <= i <= s@.len(),
            start <= 1,
            start < s@.len(),
            body == unsigned_part(s@),
            body == s@.skip(start as int),
            big::all_decimal(body.take(i - start)),
            0 <= acc <= EXPONENT_CAP + 1,
            acc == capped(big::whole(body.take(i - start)) as int),
        decreases s@.len() - i,
    {
        let c = s[i];
        assert(body[i - start] == c);
        if c < '0' || '9' < c {
            assert(!text::is_digit(body[i - start]));
            assert(!big::all_decimal(body));
            return None;
        }
        let d: i128 = (c as u32 - '0' as u32) as i128;
        proof {
            let next = body.take(i - start + 1);
            assert(next.drop_last() =~= body.take(i - start));
            assert(next.last() == c);
            assert forall|j: int| 0 <= j < next.len() implies text::is_digit(
                #[trigger] next[j],
            ) by {
                if j < i - start {
                    assert(body.take(i - start)[j] == next[j]);
                }
            }
        }
        acc = acc * 10 + d;
        if acc > EXPONENT_CAP {
            acc = EXPONENT_CAP + 1;
        }
        i = i + 1;
    }
    assert(body.take(i - start) =~= body);
    if negative {
        Some(-acc)
    } else {
        Some(acc)
    }
}

/// The digits of a number, without the zeros at the front.
fn significant(digits: &Vec<char>) -> (z: usize)
    ensures
        z <= digits@.len(),
        forall|i: int| 0 <= i < z ==> digits@[i] == '0',
        z < digits@.len() ==> digits@[z as int] != '0',
{
    let mut z: usize = 0;
    while z < digits.len() && digits[z] == '0'
        invariant
            z <= digits@.len(),
            forall|i: int| 0 <= i < z ==> digits@[i] == '0',
        decreases digits@.len() - z,
    {
        z = z + 1;
    }
    z
}

/// Zeros at the front weigh nothing.
proof fn lemma_leading_zeros(s: Seq<char>, z: int)
    requires
        big::all_decimal(s),
        0 <= z <= s.len(),
        forall|i: int| 0 <= i < z ==> s[i] == '0',
    ensures
        big::whole(s) == big::whole(s.skip(z)),
{
    let front = s.take(z);
    let back = s.skip(z);
    assert(s =~= front + back);
    assert(big::all_decimal(back)) by {
        assert forall|i: int| 0 <= i < back.len() implies text::is_digit(#[trigger] back[i]) by {
            assert(back[i] == s[z + i]);
        }
    }
    big::lemma_whole_concat(front, back);
    lemma_zeros(front);
    assert(0 * big::pow10(back.len()) == 0) by (nonlinear_arith);
}

proof fn lemma_zeros(s: Seq<char>)
    requires
        forall|i: int| 0 <= i < s.len() ==> s[i] == '0',
    ensures
        big::whole(s) == 0,
    decreases s.len(),
{
    if s.len() > 0 {
        lemma_zeros(s.drop_last());
    }
}

proof fn lemma_doubled_ten(n: nat, k: nat)
    ensures
        double::doubled(n, k + 10) == 1024 * double::doubled(n, k),
{
    reveal_with_fuel(double::doubled, 11);
}

proof fn lemma_doubled_bounds(n: nat, j: nat)
    ensures
        n * big::pow10(3 * j) <= double::doubled(n, 10 * j) <= n * big::pow10(4 * j),
    decreases j,
{
    if j == 0 {
        assert(n * 1 == n) by (nonlinear_arith);
    } else {
        let i = (j - 1) as nat;
        lemma_doubled_bounds(n, i);
        lemma_doubled_ten(n, 10 * i);
        assert(10 * i + 10 == 10 * j);
        let d = double::doubled(n, 10 * i);
        let (p, q) = (big::pow10(3 * i), big::pow10(4 * i));
        reveal_with_fuel(big::pow10, 5);
        assert(3 * j == 3 * i + 3);
        assert(4 * j == 4 * i + 4);
        big::lemma_pow10_add(3 * i, 3);
        big::lemma_pow10_add(4 * i, 4);
        assert(big::pow10(3) == 1000);
        assert(big::pow10(4) == 10000);
        assert(n * (p * 1000) == (n * p) * 1000) by (nonlinear_arith);
        assert(n * (q * 10000) == (n * q) * 10000) by (nonlinear_arith);
    }
}

/// Between which powers of ten the limit lies.
proof fn lemma_limit()
    ensures
        big::pow10(291) <= limit() < big::pow10(405),
{
    let c: nat = 18_014_398_509_481_983;
    lemma_doubled_bounds(c, 97);
    let (p, q) = (big::pow10(291), big::pow10(388));
    assert(p <= c * p) by (nonlinear_arith)
        requires
            c >= 1,
    ;
    reveal_with_fuel(big::pow10, 18);
    assert(c < big::pow10(17));
    big::lemma_pow10_add(17, 388);
    big::lemma_pow10_positive(388);
    let t = big::pow10(17);
    assert(c * q < t * q) by (nonlinear_arith)
        requires
            c < t,
            q > 0,
    ;
}

fn limit_number() -> (r: Big)
    ensures
        r.wf(),
        r@ == limit(),
{
    doubled_big(&Big::one().times(134_217_727).times(134_217_729), 970)
}

/// A number with `m` digits before its exponent, the first of them no zero, lies
/// between the powers of ten that its size says.
proof fn lemma_magnitude(mantissa: nat, m: nat, e: nat)
    requires
        m > 0,
        big::pow10((m - 1) as nat) <= mantissa < big::pow10(m),
    ensures
        big::pow10((m - 1 + e) as nat) <= mantissa * big::pow10(e) < big::pow10(m + e),
{
    let p = big::pow10(e);
    let (a, b) = (big::pow10((m - 1) as nat), big::pow10(m));
    big::lemma_pow10_add((m - 1) as nat, e);
    big::lemma_pow10_add(m, e);
    big::lemma_pow10_positive(e);
    assert((m - 1) as nat + e == (m - 1 + e) as nat);
    assert(a * p <= mantissa * p < b * p) by (nonlinear_arith)
        requires
            a <= mantissa < b,
            p > 0,
    ;
}

/// A number with its first digit at or behind place four hundred and six before
/// the point is out of range.
proof fn lemma_too_large(d: Decimal, m: nat)
    requires
        m > 0,
        big::pow10((m - 1) as nat) <= d.mantissa < big::pow10(m),
        m + d.exponent >= 406,
    ensures
        !in_range(d),
        !vanishes(d),
{
    lemma_limit();
    big::lemma_pow10_positive((m - 1) as nat);
    let e = d.exponent;
    if e >= 0 {
        lemma_magnitude(d.mantissa, m, e as nat);
        big::lemma_pow10_grows(405, (m - 1 + e) as nat);
        assert(big::pow10((m - 1 + e) as nat) <= d.mantissa * big::pow10(e as nat));
    } else {
        let f = (-e) as nat;
        // The mantissa alone has at least as many digits as the limit shifted.
        big::lemma_pow10_add(405, f);
        big::lemma_pow10_grows((405 + f) as nat, (m - 1) as nat);
        big::lemma_pow10_positive(f);
        let (l, p, q) = (limit(), big::pow10(f), big::pow10(405));
        assert(l * p <= q * p) by (nonlinear_arith)
            requires
                l <= q,
        ;
        assert(big::pow10(405 + f) == q * p);
        // And so it does not vanish either.
        big::lemma_pow10_grows(f, (m - 1) as nat);
        big::lemma_pow10_positive(400);
        let (a, b) = (d.mantissa, big::pow10(400));
        assert(a <= a * b) by (nonlinear_arith)
            requires
                b >= 1,
        ;
    }
}

/// A number with its first digit at or before place two hundred and ninety-one
/// is in range.
proof fn lemma_small_enough(d: Decimal, m: nat)
    requires
        m > 0,
        big::pow10((m - 1) as nat) <= d.mantissa < big::pow10(m),
        m + d.exponent <= 291,
    ensures
        in_range(d),
{
    lemma_limit();
    let e = d.exponent;
    if e >= 0 {
        lemma_magnitude(d.mantissa, m, e as nat);
        big::lemma_pow10_grows((m + e) as nat, 291);
        assert(d.mantissa * big::pow10(e as nat) < big::pow10((m + e) as nat));
    } else {
        let f = (-e) as nat;
        big::lemma_pow10_add(291, f);
        big::lemma_pow10_grows(m, (291 + f) as nat);
        let (l, p, q) = (limit(), big::pow10(f), big::pow10(291));
        assert(q * p <= l * p) by (nonlinear_arith)
            requires
                q <= l,
        ;
    }
}

/// Which numbers vanish, by where their first digit stands.
proof fn lemma_vanishing(d: Decimal, m: nat)
    requires
        m > 0,
        big::pow10((m - 1) as nat) <= d.mantissa < big::pow10(m),
    ensures
        vanishes(d) <==> m + d.exponent <= -400,
{
    lemma_magnitude(d.mantissa, m, 400);
    big::lemma_pow10_positive((m - 1) as nat);
    let e = d.exponent;
    if e < 0 {
        let f = (-e) as nat;
        if m + 400 <= f {
            big::lemma_pow10_grows((m + 400) as nat, f);
        } else {
            big::lemma_pow10_grows(f, (m + 399) as nat);
            assert((m - 1 + 400) as nat == (m + 399) as nat);
        }
    }
}

/// A number as it is written.
struct Written {
    negative: bool,
    digits: Vec<char>,
    decimals: usize,
    exponent: i128,
}

impl Written {
    /// Whether the written number is the given one, but for an exponent beyond
    /// the cap.
    spec fn writes(&self, d: Decimal) -> bool {
        &&& big::all_decimal(self.digits@)
        &&& self.decimals <= self.digits@.len()
        &&& d.negative == self.negative
        &&& d.mantissa == big::whole(self.digits@)
        &&& self.exponent == capped(d.exponent + self.decimals)
    }
}

fn read_written(v: &Vec<char>) -> (r: Option<Written>)
    requires
        v@.len() > 0,
    ensures
        match r {
            Some(w) => scientific(v@) is Some && w.writes(scientific(v@)->0),
            None => scientific(v@) is None,
        },
{
    let signed = v[0] == '-' || v[0] == '+';
    let negative = v[0] == '-';
    let start: usize = if signed {
        1
    } else {
        0
    };
    let body = chars_of(string_of(v, start, v.len()).as_str());
    assert(body@ =~= unsigned_part(v@));
    let total: usize = body.len();
    let a: usize = scan_digits(&body, 0);
    let pointed = a < total && body[a] == '.';
    let b: usize = if pointed {
        scan_digits(&body, a + 1)
    } else {
        0
    };
    let end: usize = if pointed {
        a + 1 + b
    } else {
        a
    };
    if a == 0 && b == 0 {
        return None;
    }
    let exponent: i128 = if end == total {
        0
    } else if body[end] == 'e' || body[end] == 'E' {
        let tail = chars_of(string_of(&body, end + 1, total).as_str());
        assert(tail@ =~= body@.skip(end + 1));
        match read_exponent(&tail) {
            Some(x) => x,
            None => {
                return None;
            },
        }
    } else {
        return None;
    };
    let mut digits = chars_of(string_of(&body, 0, a).as_str());
    assert(digits@ =~= body@.take(a as int));
    if pointed {
        let mut tail = chars_of(string_of(&body, a + 1, end).as_str());
        digits.append(&mut tail);
        assert(digits@ =~= body@.take(a as int) + body@.subrange(a + 1, end as int));
    }
    proof {
        lemma_digit_run(body@, 0);
        if pointed {
            lemma_digit_run(body@, a + 1);
        }
        assert forall|i: int| 0 <= i < digits@.len() implies text::is_digit(
            #[trigger] digits@[i],
        ) by {
            if i < a {
                assert(digits@[i] == body@[i]);
            } else {
                assert(digits@[i] == body@[i + 1]);
            }
        }
    }
    Some(Written { negative, digits, decimals: b, exponent })
}

/// A written number that double precision holds.
fn settle(w: &Written, Ghost(d): Ghost<Decimal>) -> (r: Option<Number>)
    requires
        w.writes(d),
    ensures
        match r {
            Some(n) => n.wf() && in_range(d) && double_of(n@) == double_of(d),
            None => !in_range(d),
        },
{
    let all: usize = w.digits.len();
    let z: usize = significant(&w.digits);
    let m: usize = all - z;
    let ghost rest = w.digits@.skip(z as int);
    proof {
        lemma_leading_zeros(w.digits@, z as int);
        assert(w.digits@.subrange(z as int, all as int) =~= rest);
        assert forall|i: int| 0 <= i < rest.len() implies text::is_digit(#[trigger] rest[i]) by {
            assert(rest[i] == w.digits@[z + i]);
        }
        if m > 0 {
            assert(rest[0] == w.digits@[z as int]);
        }
        big::lemma_whole_bound(rest);
    }
    if m == 0 {
        proof {
            assert(rest =~= Seq::empty());
            lemma_vanished(d);
            lemma_vanished(zero());
        }
        return Some(zero_number());
    }
    let e: i128 = w.exponent - w.decimals as i128;
    let places: i128 = m as i128 + e;
    if places <= -400 {
        proof {
            lemma_vanishing(d, m as nat);
            lemma_vanished(d);
            lemma_vanished(zero());
        }
        return Some(zero_number());
    }
    if places >= 406 {
        proof {
            lemma_too_large(d, m as nat);
        }
        return None;
    }
    assert(e == d.exponent);
    let mantissa = Big::from_chars(&w.digits, z, all);
    proof {
        lemma_vanishing(d, m as nat);
    }
    if places > 291 {
        let top = limit_number();
        let beyond = if e >= 0 {
            top.at_most(&mantissa.shifted(e as u128))
        } else {
            top.shifted((-e) as u128).at_most(&mantissa)
        };
        if beyond {
            return None;
        }
    } else {
        proof {
            lemma_small_enough(d, m as nat);
        }
    }
    Some(Number { negative: w.negative, mantissa, exponent: e })
}

/// Read one part of a time.
fn read_number(t: &str) -> (r: Option<Number>)
    ensures
        match r {
            Some(n) => n.wf() && number_of(t@) == Some(double_of(n@)),
            None => number_of(t@) is None,
        },
{
    let s = t.trim();
    let v = chars_of(s);
    if v.len() == 0 {
        proof {
            lemma_vanished(zero());
        }
        return Some(zero_number());
    }
    match read_written(&v) {
        Some(w) => settle(&w, Ghost(scientific(v@)->0)),
        None => None,
    }
}

/// The characters of a run of digits are digits.
proof fn lemma_digit_run(s: Seq<char>, from: int)
    requires
        0 <= from <= s.len(),
    ensures
        from + lyrics_format::digit_run(s, from) <= s.len(),
        forall|i: int|
            from <= i < from + lyrics_format::digit_run(s, from) ==> text::is_digit(
                #[trigger] s[i],
            ),
    decreases s.len() - from,
{
    if from < s.len() && text::is_digit(s[from]) {
        lemma_digit_run(s, from + 1);
    }
}

/// A number with the milliseconds that one of it lasts.
struct Part {
    weight: u32,
    number: Number,
}

/// What a list of parts stands for.
spec fn parts_view(v: Seq<Part>) -> Seq<(nat, int)> {
    v.map_values(|p: Part| (p.weight as nat, double_of(p.number@)))
}

spec fn parts_wf(v: Seq<Part>) -> bool {
    forall|i: int| 0 <= i < v.len() ==> (#[trigger] v[i]).number.wf()
}

/// Add a part to a list, if it is a number.
fn push_part(v: &mut Vec<Part>, weight: u32, t: &str) -> (ok: bool)
    requires
        parts_wf(old(v)@),
    ensures
        parts_wf(final(v)@),
        ok == (timed(weight as nat, t@) is Some),
        ok ==> parts_view(final(v)@) == parts_view(old(v)@) + timed(weight as nat, t@)->0,
{
    let ghost before = v@;
    match read_number(t) {
        Some(number) => {
            v.push(Part { weight, number });
            assert(parts_view(v@) =~= parts_view(before) + seq![(weight as nat, double_of(number@))]);
            true
        },
        None => false,
    }
}

fn read_parts(value: &str) -> (r: Option<Vec<Part>>)
    ensures
        match r {
            Some(v) => parts_wf(v@) && time_parts(value@) == Some(parts_view(v@)),
            None => time_parts(value@) is None,
        },
{
    let s = value.trim();
    let c = chars_of(s);
    let n: usize = c.len();
    if n == 0 {
        return None;
    }
    let mut v: Vec<Part> = Vec::new();
    assert(parts_view(v@) =~= Seq::empty());
    if n >= 2 && c[n - 2] == 'm' && c[n - 1] == 's' {
        let t = string_of(&c, 0, n - 2);
        assert(t@ =~= s@.take(n - 2));
        if push_part(&mut v, 1, t.as_str()) {
            assert(parts_view(v@) =~= timed(1, t@)->0);
            return Some(v);
        }
        return None;
    }
    if c[n - 1] == 's' {
        let t = string_of(&c, 0, n - 1);
        assert(t@ =~= s@.take(n - 1));
        if push_part(&mut v, 1000, t.as_str()) {
            assert(parts_view(v@) =~= timed(1000, t@)->0);
            return Some(v);
        }
        return None;
    }
    let k: usize = crate::text::index_from(&c, ':', 0);
    if k == n {
        assert(!s@.contains(':'));
        if push_part(&mut v, 1000, s) {
            assert(parts_view(v@) =~= timed(1000, s@)->0);
            return Some(v);
        }
        return None;
    }
    assert(s@[k as int] == ':');
    assert(s@.contains(':'));
    let pieces = split(s, ':');
    let ghost names = text::split_on(s@, ':');
    assert(names.len() == pieces@.len());
    if pieces.len() == 2 {
        assert(names[0] == pieces@[0]@ && names[1] == pieces@[1]@);
        if push_part(&mut v, 60_000, pieces[0].as_str()) && push_part(
            &mut v,
            1000,
            pieces[1].as_str(),
        ) {
            assert(parts_view(v@) =~= timed(60_000, names[0])->0 + timed(1000, names[1])->0);
            return Some(v);
        }
        return None;
    }
    if pieces.len() == 3 {
        assert(names[0] == pieces@[0]@ && names[1] == pieces@[1]@ && names[2] == pieces@[2]@);
        if push_part(&mut v, 3_600_000, pieces[0].as_str()) && push_part(
            &mut v,
            60_000,
            pieces[1].as_str(),
        ) && push_part(&mut v, 1000, pieces[2].as_str()) {
            assert(parts_view(v@) =~= timed(3_600_000, names[0])->0 + timed(60_000, names[1])->0
                + timed(1000, names[2])->0);
            return Some(v);
        }
        return None;
    }
    None
}

/// A number rounded to double precision.
fn to_double(n: &Number) -> (r: Big)
    requires
        n.wf(),
    ensures
        r.wf(),
        double::signed(n@.negative, r@) == double_of(n@),
{
    let e: i128 = n.exponent;
    if e >= 0 {
        round_ratio(&doubled_big(&n.mantissa.shifted(e as u128), 1074), &Big::one())
    } else {
        let q = Big::one().shifted((-e) as u128);
        proof {
            big::lemma_pow10_positive((-e) as nat);
            assert(1 * big::pow10((-e) as nat) == big::pow10((-e) as nat)) by (nonlinear_arith);
        }
        round_ratio(&doubled_big(&n.mantissa, 1074), &q)
    }
}

/// One part in milliseconds.
fn weigh(part: &Part) -> (r: Value)
    requires
        part.number.wf(),
    ensures
        r.wf(),
        r@ == weighed((part.weight as nat, double_of(part.number@))),
{
    let units = to_double(&part.number);
    if part.weight == 1 {
        Value::Finite { negative: part.number.negative, units }
    } else {
        double::times(part.number.negative, &units, part.weight)
    }
}

/// Parts of which none is negative come to nothing negative.
proof fn lemma_ahead(parts: Seq<(nat, int)>)
    requires
        forall|i: int| 0 <= i < parts.len() ==> (#[trigger] parts[i]).1 >= 0,
    ensures
        double::is_ahead(total(parts)),
    decreases parts.len(),
{
    if parts.len() > 0 {
        let rest = parts.drop_last();
        assert forall|i: int| 0 <= i < rest.len() implies (#[trigger] rest[i]).1 >= 0 by {
            assert(rest[i] == parts[i]);
        }
        lemma_ahead(rest);
        let last = parts[parts.len() - 1];
        double::lemma_not_negative(total(rest), Double::Finite(0), last.1, last.0);
        double::lemma_not_negative(total(rest), weighed(last), last.1, last.0);
    }
}

/// Whether one of the parts is negative.
fn any_negative(v: &Vec<Part>) -> (r: bool)
    ensures
        !r ==> forall|i: int| 0 <= i < v@.len() ==> double_of((#[trigger] v@[i]).number@) >= 0,
{
    let mut i: usize = 0;
    while i < v.len()
        invariant
            i <= v@.len(),
            forall|j: int| 0 <= j < i ==> double_of((#[trigger] v@[j]).number@) >= 0,
        decreases v@.len() - i,
    {
        if v[i].number.negative {
            return true;
        }
        i = i + 1;
    }
    false
}

/// Whether a time is one that the renderer can read and that does not round
/// below zero.
pub fn begins_in_time(value: &str) -> (r: bool)
    ensures
        r == is_begin(value@),
{
    let v = match read_parts(value) {
        Some(v) => v,
        None => {
            return false;
        },
    };
    let ghost all = parts_view(v@);
    if v.len() == 0 || !any_negative(&v) {
        proof {
            assert forall|i: int| 0 <= i < all.len() implies (#[trigger] all[i]).1 >= 0 by {
                assert(double_of(v@[i].number@) >= 0);
            }
            lemma_ahead(all);
        }
        return true;
    }
    assert(v@[0].number.wf());
    let mut ms = weigh(&v[0]);
    let mut i: usize = 1;
    assert(all.take(1)[0] == all[0]);
    while i < v.len()
        invariant
            1 <= i <= v@.len(),
            all == parts_view(v@),
            parts_wf(v@),
            ms.wf(),
            ms@ == total(all.take(i as int)),
        decreases v@.len() - i,
    {
        assert(v@[i as int].number.wf());
        assert(all.take(i + 1).drop_last() =~= all.take(i as int));
        assert(all.take(i + 1).last() == all[i as int]);
        ms = double::plus(&ms, &weigh(&v[i]));
        i = i + 1;
    }
    assert(all.take(i as int) =~= all);
    match &ms {
        Value::Finite { negative, units } => {
            !*negative || units.times(2).at_most(&doubled_big(&Big::one(), 1074))
        },
        Value::Infinite { negative } => !*negative,
        Value::NotANumber => false,
    }
}

/// A time without a negative part is never too early.
pub proof fn a_time_without_a_sign_is_in_time(value: Seq<char>)
    requires
        time_parts(value) is Some,
        forall|i: int|
            0 <= i < time_parts(value)->0.len() ==> (#[trigger] time_parts(value)->0[i]).1 >= 0,
    ensures
        is_begin(value),
{
    lemma_ahead(time_parts(value)->0);
}

// What holds of all of them.

proof fn lemma_run(s: Seq<char>, from: int, n: int)
    requires
        0 <= from,
        0 <= n,
        from + n <= s.len(),
        forall|i: int| from <= i < from + n ==> text::is_digit(#[trigger] s[i]),
        from + n < s.len() ==> !text::is_digit(s[from + n]),
    ensures
        lyrics_format::digit_run(s, from) == n,
    decreases n,
{
    if n > 0 {
        assert(text::is_digit(s[from]));
        lemma_run(s, from + 1, n - 1);
    }
}

/// Digits, a sign before them or none, are trimmed of nothing and read as they stand.
proof fn lemma_reads_digits(d: Seq<char>, t: Seq<char>)
    requires
        d.len() > 0,
        forall|i: int| 0 <= i < d.len() ==> '0' <= #[trigger] d[i] <= '9',
        t == d || t == seq!['-'] + d || t == seq!['+'] + d,
    ensures
        text::trimmed(t) == t,
        scientific(t) == Some(
            Decimal { negative: t[0] == '-', mantissa: big::whole(d), exponent: 0 },
        ),
{
    let none = Seq::<char>::empty();
    assert(t.last() == d.last());
    text::margins_are_trimmed(none, t, none);
    assert(none + t + none =~= t);
    let body = unsigned_part(t);
    assert(body =~= d);
    assert(d.skip(0) =~= d);
    lemma_run(d, 0, d.len() as int);
    assert(d.take(d.len() as int) =~= d);
}

proof fn lemma_doubled_least(n: nat, k: nat)
    ensures
        double::doubled(n, k) >= n,
    decreases k,
{
    if k > 0 {
        lemma_doubled_least(n, (k - 1) as nat);
    }
}

/// A whole number that double precision holds is read as it is, with its sign, and counted
/// in the least units.
pub proof fn a_whole_number_is_read_as_it_is(d: Seq<char>)
    requires
        d.len() > 0,
        forall|i: int| 0 <= i < d.len() ==> '0' <= #[trigger] d[i] <= '9',
        big::whole(d) < 9_007_199_254_740_992,
    ensures
        number_of(d) == Some(big::whole(d) as int * double::doubled(1, 1074)),
        number_of(seq!['+'] + d) == Some(big::whole(d) as int * double::doubled(1, 1074)),
        number_of(seq!['-'] + d) == Some(-(big::whole(d) as int * double::doubled(1, 1074))),
{
    let w = big::whole(d);
    lemma_reads_digits(d, d);
    lemma_reads_digits(d, seq!['+'] + d);
    lemma_reads_digits(d, seq!['-'] + d);
    assert((seq!['+'] + d)[0] == '+');
    assert((seq!['-'] + d)[0] == '-');
    lemma_doubled_least(18_014_398_509_481_983, 970);
    reveal_with_fuel(big::pow10, 1);
    assert(w * big::pow10(0) == w) by (nonlinear_arith)
        requires
            big::pow10(0) == 1,
    ;
    double::what_fits_is_not_rounded(w, 1074, 1);
    double::lemma_doubled_times(w, 1074);
    let (u, x) = (double::doubled(1, 1074), double::doubled(w, 1074));
    assert(x * 1 == x && u * w == w * u) by (nonlinear_arith);
}

/// A small number of units settles at itself.
proof fn lemma_settles(n: int)
    requires
        -9_007_199_254_740_992 < n < 9_007_199_254_740_992,
    ensures
        double::settled(n * double::doubled(1, 1074)) == Double::Finite(
            n * double::doubled(1, 1074),
        ),
{
    let u = double::doubled(1, 1074);
    let m = (if n < 0 {
        -n
    } else {
        n
    }) as nat;
    double::lemma_doubled_times(m, 1074);
    double::a_number_settles_at_itself(m, 1074);
    double::units_are_the_least_numbers();
    lemma_below(m);
    assert(u * m == m * u) by (nonlinear_arith);
    if n < 0 {
        assert(n * u == -(m * u)) by (nonlinear_arith)
            requires
                m == -n,
        ;
    }
}

proof fn lemma_below(m: nat)
    requires
        m < 9_007_199_254_740_992,
    ensures
        double::doubled(m, 1074) < double::beyond(),
{
    double::lemma_doubled_times(m, 1074);
    double::lemma_doubled_times(double::one(), 1024);
    double::units_are_the_least_numbers();
    double::lemma_doubled_positive(1074);
    let u = double::doubled(1, 1074);
    lemma_doubled_least(double::doubled(1, 53), 971);
    lemma_twice(53, 971);
    reveal_with_fuel(double::doubled, 54);
    assert(double::doubled(1, 53) == 9_007_199_254_740_992);
    let b = double::doubled(1, 1024);
    assert(b >= 9_007_199_254_740_992);
    assert(u * m < b * u) by (nonlinear_arith)
        requires
            u >= 1,
            m < 9_007_199_254_740_992,
            b >= 9_007_199_254_740_992,
    ;
}

proof fn lemma_twice(a: nat, b: nat)
    ensures
        double::doubled(double::doubled(1, a), b) == double::doubled(1, a + b),
    decreases b,
{
    if b > 0 {
        lemma_twice(a, (b - 1) as nat);
        assert((a + b - 1) as nat == a + (b - 1) as nat);
    }
}

/// A number of milliseconds of which each unit stands for so many.
proof fn lemma_weighs(weight: nat, n: int)
    requires
        weight > 0,
        -9_007_199_254_740_992 < n * weight < 9_007_199_254_740_992,
    ensures
        weighed((weight, n * double::doubled(1, 1074))) == Double::Finite(
            (n * weight) * double::doubled(1, 1074),
        ),
{
    let u = double::doubled(1, 1074);
    lemma_settles(n * weight);
    assert((n * u) * weight == (n * weight) * u) by (nonlinear_arith);
    if weight == 1 {
        assert(n * 1 == n) by (nonlinear_arith);
    }
}

proof fn lemma_in_time(n: int)
    ensures
        is_in_time(Double::Finite(n * double::doubled(1, 1074))) <==> n >= 0,
{
    let u = double::doubled(1, 1074);
    double::lemma_doubled_positive(1074);
    double::units_are_the_least_numbers();
    assert(2 * (n * u) + u >= 0 <==> n >= 0) by (nonlinear_arith)
        requires
            u >= 1,
    ;
}

proof fn lemma_plain_time(t: Seq<char>)
    requires
        t.len() > 0,
        !text::is_white_space(t[0]),
        !text::is_white_space(t.last()),
    ensures
        text::trimmed(t) == t,
{
    let none = Seq::<char>::empty();
    text::margins_are_trimmed(none, t, none);
    assert(none + t + none =~= t);
}

/// A blank text is no time.
pub proof fn a_blank_text_is_no_time(value: Seq<char>)
    requires
        text::is_blank(value),
    ensures
        !is_begin(value),
{
    text::lemma_trimmed_blank(value);
}

/// A number alone is one of seconds, a number before `s` too, and one before `ms` is one of
/// milliseconds; each is in time but for one below zero.
pub proof fn a_number_is_in_time_unless_below_zero(d: Seq<char>)
    requires
        d.len() > 0,
        forall|i: int| 0 <= i < d.len() ==> '0' <= #[trigger] d[i] <= '9',
        big::whole(d) < 1_000_000_000,
    ensures
        ({
            let w = big::whole(d) as int;
            let u = double::doubled(1, 1074) as int;
            let minus = seq!['-'] + d;
            &&& time_parts(d) == Some(seq![(1000nat, w * u)])
            &&& time_parts(d + "s"@) == Some(seq![(1000nat, w * u)])
            &&& time_parts(d + "ms"@) == Some(seq![(1nat, w * u)])
            &&& is_begin(d) && is_begin(d + "s"@) && is_begin(d + "ms"@)
            &&& is_begin(minus) <==> w == 0
            &&& is_begin(minus + "s"@) <==> w == 0
            &&& is_begin(minus + "ms"@) <==> w == 0
        }),
{
    reveal_strlit("s");
    reveal_strlit("ms");
    let w = big::whole(d) as int;
    let u = double::doubled(1, 1074) as int;
    a_whole_number_is_read_as_it_is(d);
    lemma_time_of(d, w * u);
    let minus = seq!['-'] + d;
    assert(minus.last() == d.last());
    lemma_time_of(minus, -(w * u));
    assert(-(w * u) == (-w) * u) by (nonlinear_arith);
    lemma_weighs(1000, w);
    lemma_weighs(1, w);
    lemma_weighs(1000, -w);
    lemma_weighs(1, -w);
    lemma_in_time(w * 1000);
    lemma_in_time(w * 1);
    lemma_in_time((-w) * 1000);
    lemma_in_time((-w) * 1);
}

/// What stands alone, before `s` and before `ms`.
proof fn lemma_time_of(t: Seq<char>, n: int)
    requires
        t.len() > 0,
        !text::is_white_space(t[0]),
        '0' <= t.last() <= '9',
        forall|i: int| 0 <= i < t.len() ==> #[trigger] t[i] != ':' && t[i] != 'm',
        number_of(t) == Some(n),
    ensures
        time_parts(t) == Some(seq![(1000nat, n)]),
        time_parts(t + "s"@) == Some(seq![(1000nat, n)]),
        time_parts(t + "ms"@) == Some(seq![(1nat, n)]),
        total(seq![(1000nat, n)]) == weighed((1000nat, n)),
        total(seq![(1nat, n)]) == weighed((1nat, n)),
{
    reveal_strlit("s");
    reveal_strlit("ms");
    let k = t.len() as int;
    lemma_plain_time(t);
    lemma_plain_time(t + "s"@);
    lemma_plain_time(t + "ms"@);
    assert((t + "s"@).take(k) =~= t);
    assert((t + "ms"@).take(k) =~= t);
    assert((t + "s"@)[k - 1] == t[k - 1]);
    assert((t + "s"@)[k] == 's');
    assert((t + "ms"@)[k] == 'm' && (t + "ms"@)[k + 1] == 's');
    if t.contains(':') {
        let i = choose|i: int| 0 <= i < t.len() && t[i] == ':';
        assert(t[i] != ':');
    }
}

proof fn lemma_no_colon(d: Seq<char>)
    requires
        forall|i: int| 0 <= i < d.len() ==> '0' <= #[trigger] d[i] <= '9',
    ensures
        forall|i: int| 0 <= i < d.len() ==> #[trigger] d[i] != ':',
        forall|i: int| 0 <= i < (seq!['-'] + d).len() ==> #[trigger] (seq!['-'] + d)[i] != ':',
{
    let minus = seq!['-'] + d;
    assert forall|i: int| 0 <= i < minus.len() implies #[trigger] minus[i] != ':' by {
        if i > 0 {
            assert(minus[i] == d[i - 1]);
        }
    }
}

/// Two numbers around a colon are minutes and seconds: minutes below zero are in time only
/// where the seconds make up for them.
pub proof fn a_minute_is_sixty_seconds(m: Seq<char>, s: Seq<char>)
    requires
        m.len() > 0 && s.len() > 0,
        forall|i: int| 0 <= i < m.len() ==> '0' <= #[trigger] m[i] <= '9',
        forall|i: int| 0 <= i < s.len() ==> '0' <= #[trigger] s[i] <= '9',
        big::whole(m) < 1_000_000_000,
        big::whole(s) < 1_000_000_000,
    ensures
        is_begin(m.push(':') + s),
        is_begin((seq!['-'] + m).push(':') + s) <==> 60 * big::whole(m) <= big::whole(s),
{
    let (a, b) = (big::whole(m) as int, big::whole(s) as int);
    lemma_no_colon(m);
    lemma_no_colon(s);
    a_whole_number_is_read_as_it_is(m);
    a_whole_number_is_read_as_it_is(s);
    let minus = seq!['-'] + m;
    let u = double::doubled(1, 1074) as int;
    assert(-(a * u) == (-a) * u) by (nonlinear_arith);
    lemma_two_parts(m, s, a, b);
    lemma_two_parts(minus, s, -a, b);
}

proof fn lemma_two_parts(m: Seq<char>, s: Seq<char>, a: int, b: int)
    requires
        m.len() > 0 && s.len() > 0,
        !text::is_white_space(m[0]),
        '0' <= s.last() <= '9',
        forall|i: int| 0 <= i < m.len() ==> #[trigger] m[i] != ':',
        forall|i: int| 0 <= i < s.len() ==> #[trigger] s[i] != ':',
        number_of(m) == Some(a * double::doubled(1, 1074)),
        number_of(s) == Some(b * double::doubled(1, 1074)),
        -1_000_000_000 < a < 1_000_000_000,
        -1_000_000_000 < b < 1_000_000_000,
    ensures
        is_begin(m.push(':') + s) <==> 60 * a + b >= 0,
{
    let u = double::doubled(1, 1074) as int;
    let t = m.push(':') + s;
    lemma_plain_time(t);
    text::a_separator_parts_the_pieces(m, ':', s);
    text::a_separator_parts_the_pieces(s, ':', s);
    let pieces = text::split_on(t, ':');
    assert(pieces =~= seq![m, s]);
    assert(t[m.len() as int] == ':');
    assert(t.contains(':'));
    let parts = seq![(60_000nat, a * u)] + seq![(1000nat, b * u)];
    assert(time_parts(t) == Some(parts));
    assert(parts.drop_last() =~= seq![(60_000nat, a * u)]);
    lemma_weighs(60_000, a);
    lemma_weighs(1000, b);
    assert((a * 60_000) * u + (b * 1000) * u == (a * 60_000 + b * 1000) * u) by (nonlinear_arith);
    lemma_settles(a * 60_000 + b * 1000);
    assert(total(parts.drop_last()) == Double::Finite((a * 60_000) * u));
    assert(total(parts) == Double::Finite((a * 60_000 + b * 1000) * u));
    lemma_in_time(a * 60_000 + b * 1000);
}

/// Three numbers around colons are hours, minutes and seconds: hours below zero are in time
/// only where the minutes and the seconds make up for them. Four are no time.
pub proof fn an_hour_is_sixty_minutes(h: Seq<char>, m: Seq<char>, s: Seq<char>)
    requires
        h.len() > 0 && m.len() > 0 && s.len() > 0,
        forall|i: int| 0 <= i < h.len() ==> '0' <= #[trigger] h[i] <= '9',
        forall|i: int| 0 <= i < m.len() ==> '0' <= #[trigger] m[i] <= '9',
        forall|i: int| 0 <= i < s.len() ==> '0' <= #[trigger] s[i] <= '9',
        big::whole(h) < 1_000_000_000,
        big::whole(m) < 1_000_000_000,
        big::whole(s) < 1_000_000_000,
    ensures
        is_begin(h.push(':') + (m.push(':') + s)),
        is_begin((seq!['-'] + h).push(':') + (m.push(':') + s)) <==> 3600 * big::whole(h) <= 60
            * big::whole(m) + big::whole(s),
        !is_begin(h.push(':') + (h.push(':') + (m.push(':') + s))),
{
    let (a, b, c) = (big::whole(h) as int, big::whole(m) as int, big::whole(s) as int);
    lemma_no_colon(h);
    lemma_no_colon(m);
    lemma_no_colon(s);
    a_whole_number_is_read_as_it_is(h);
    a_whole_number_is_read_as_it_is(m);
    a_whole_number_is_read_as_it_is(s);
    let u = double::doubled(1, 1074) as int;
    assert(-(a * u) == (-a) * u) by (nonlinear_arith);
    lemma_three_parts(h, m, s, a, b, c);
    lemma_three_parts(seq!['-'] + h, m, s, -a, b, c);
    let t = h.push(':') + (h.push(':') + (m.push(':') + s));
    lemma_plain_time(t);
    text::a_separator_parts_the_pieces(h, ':', h.push(':') + (m.push(':') + s));
    text::a_separator_parts_the_pieces(h, ':', m.push(':') + s);
    text::a_separator_parts_the_pieces(m, ':', s);
    text::a_separator_parts_the_pieces(s, ':', s);
    assert(text::split_on(t, ':').len() == 4);
    assert(t[h.len() as int] == ':');
    assert(t.contains(':'));
    assert(t.last() == s.last());
}

proof fn lemma_three_parts(h: Seq<char>, m: Seq<char>, s: Seq<char>, a: int, b: int, c: int)
    requires
        h.len() > 0 && m.len() > 0 && s.len() > 0,
        !text::is_white_space(h[0]),
        '0' <= s.last() <= '9',
        forall|i: int| 0 <= i < h.len() ==> #[trigger] h[i] != ':',
        forall|i: int| 0 <= i < m.len() ==> #[trigger] m[i] != ':',
        forall|i: int| 0 <= i < s.len() ==> #[trigger] s[i] != ':',
        number_of(h) == Some(a * double::doubled(1, 1074)),
        number_of(m) == Some(b * double::doubled(1, 1074)),
        number_of(s) == Some(c * double::doubled(1, 1074)),
        -1_000_000_000 < a < 1_000_000_000,
        0 <= b < 1_000_000_000,
        0 <= c < 1_000_000_000,
    ensures
        is_begin(h.push(':') + (m.push(':') + s)) <==> 3600 * a + 60 * b + c >= 0,
{
    let u = double::doubled(1, 1074) as int;
    let t = h.push(':') + (m.push(':') + s);
    lemma_plain_time(t);
    text::a_separator_parts_the_pieces(h, ':', m.push(':') + s);
    text::a_separator_parts_the_pieces(m, ':', s);
    text::a_separator_parts_the_pieces(s, ':', s);
    let pieces = text::split_on(t, ':');
    assert(pieces =~= seq![h, m, s]);
    assert(t[h.len() as int] == ':');
    assert(t.contains(':'));
    assert(t.last() == s.last());
    let first = seq![(3_600_000nat, a * u)];
    let two = first + seq![(60_000nat, b * u)];
    let parts = two + seq![(1000nat, c * u)];
    assert(time_parts(t) == Some(parts));
    assert(parts.drop_last() =~= two);
    assert(two.drop_last() =~= first);
    lemma_weighs(3_600_000, a);
    lemma_weighs(60_000, b);
    lemma_weighs(1000, c);
    let x = a * 3_600_000 + b * 60_000;
    assert((a * 3_600_000) * u + (b * 60_000) * u == x * u) by (nonlinear_arith)
        requires
            x == a * 3_600_000 + b * 60_000,
    ;
    lemma_settles(x);
    assert(total(first) == Double::Finite((a * 3_600_000) * u));
    assert(total(two) == Double::Finite(x * u));
    let y = x + c * 1000;
    assert(x * u + (c * 1000) * u == y * u) by (nonlinear_arith)
        requires
            y == x + c * 1000,
    ;
    lemma_settles(y);
    assert(total(parts) == Double::Finite(y * u));
    lemma_in_time(y);
}

/// A character that no number holds makes a text no time.
pub proof fn a_letter_is_no_number(d: Seq<char>, c: char)
    requires
        d.len() > 0,
        forall|i: int| 0 <= i < d.len() ==> '0' <= #[trigger] d[i] <= '9',
        !('0' <= c <= '9'),
        !text::is_white_space(c),
        c != '.' && c != 'e' && c != 'E' && c != 's' && c != ':',
    ensures
        !is_begin(d.push(c)),
{
    let t = d.push(c);
    lemma_plain_time(t);
    assert(t.skip(0) =~= t);
    assert forall|i: int| 0 <= i < d.len() implies text::is_digit(#[trigger] t[i]) by {
        assert(t[i] == d[i]);
    }
    lemma_run(t, 0, d.len() as int);
    if t.contains(':') {
        let i = choose|i: int| 0 <= i < t.len() && t[i] == ':';
        assert(i < d.len());
        assert(t[i] == d[i]);
    }
    assert(scientific(t) is None);
    assert(number_of(t) is None);
}

/// Digits behind a point weigh a tenth each, and an exponent, of either sign, shifts them
/// all; a minus sign in front makes the number negative.
pub proof fn a_point_and_an_exponent_shift_the_digits(a: Seq<char>, b: Seq<char>, x: Seq<char>)
    requires
        a.len() + b.len() > 0,
        x.len() > 0,
        forall|i: int| 0 <= i < a.len() ==> '0' <= #[trigger] a[i] <= '9',
        forall|i: int| 0 <= i < b.len() ==> '0' <= #[trigger] b[i] <= '9',
        forall|i: int| 0 <= i < x.len() ==> '0' <= #[trigger] x[i] <= '9',
    ensures
        ({
            let t = a.push('.') + b;
            let (m, n, e) = (big::whole(a + b), b.len() as int, big::whole(x) as int);
            &&& scientific(t) == Some(Decimal { negative: false, mantissa: m, exponent: -n })
            &&& scientific(seq!['-'] + t) == Some(
                Decimal { negative: true, mantissa: m, exponent: -n },
            )
            &&& scientific(t.push('e') + x) == Some(
                Decimal { negative: false, mantissa: m, exponent: e - n },
            )
            &&& scientific(t.push('E') + x) == Some(
                Decimal { negative: false, mantissa: m, exponent: e - n },
            )
            &&& scientific(t.push('e').push('+') + x) == Some(
                Decimal { negative: false, mantissa: m, exponent: e - n },
            )
            &&& scientific(t.push('e').push('-') + x) == Some(
                Decimal { negative: false, mantissa: m, exponent: -e - n },
            )
        }),
{
    let t = a.push('.') + b;
    let none = Seq::<char>::empty();
    lemma_pointed(a, b, none, t);
    assert(t + none =~= t);
    let minus = seq!['-'] + t;
    assert(minus.skip(1) =~= t);
    assert(exponent_of(x) == Some(big::whole(x) as int)) by {
        assert(unsigned_part(x) == x);
        assert(big::all_decimal(x));
    }
    let plus = seq!['+'] + x;
    let less = seq!['-'] + x;
    assert(plus.skip(1) =~= x && less.skip(1) =~= x);
    assert(big::all_decimal(x));
    let te = t.push('e') + x;
    let tf = t.push('E') + x;
    let tp = t.push('e').push('+') + x;
    let tm = t.push('e').push('-') + x;
    assert(te =~= t + (seq!['e'] + x));
    assert(tf =~= t + (seq!['E'] + x));
    assert(tp =~= t + (seq!['e'] + plus));
    assert(tm =~= t + (seq!['e'] + less));
    lemma_pointed(a, b, seq!['e'] + x, te);
    lemma_pointed(a, b, seq!['E'] + x, tf);
    lemma_pointed(a, b, seq!['e'] + plus, tp);
    lemma_pointed(a, b, seq!['e'] + less, tm);
    let end = t.len() as int;
    assert(te.skip(end + 1) =~= x);
    assert(tf.skip(end + 1) =~= x);
    assert(tp.skip(end + 1) =~= plus);
    assert(tm.skip(end + 1) =~= less);
}

proof fn lemma_pointed(a: Seq<char>, b: Seq<char>, rest: Seq<char>, t: Seq<char>)
    requires
        t == a.push('.') + b + rest,
        a.len() + b.len() > 0,
        rest.len() > 0 ==> !text::is_digit(rest[0]),
        forall|i: int| 0 <= i < a.len() ==> '0' <= #[trigger] a[i] <= '9',
        forall|i: int| 0 <= i < b.len() ==> '0' <= #[trigger] b[i] <= '9',
    ensures
        unsigned_part(t) == t,
        !is_negative(t),
        lyrics_format::digit_run(t, 0) == a.len(),
        t[a.len() as int] == '.',
        lyrics_format::digit_run(t, a.len() as int + 1) == b.len(),
        t.take(a.len() as int) + t.subrange(
            a.len() as int + 1,
            a.len() as int + 1 + b.len(),
        ) == a + b,
{
    let (n, m) = (a.len() as int, b.len() as int);
    assert forall|i: int| 0 <= i < n implies text::is_digit(#[trigger] t[i]) by {
        assert(t[i] == a[i]);
    }
    assert(t[n] == '.');
    assert forall|i: int| n + 1 <= i < n + 1 + m implies text::is_digit(#[trigger] t[i]) by {
        assert(t[i] == b[i - n - 1]);
    }
    if n + 1 + m < t.len() {
        assert(t[n + 1 + m] == rest[0]);
    }
    lemma_run(t, 0, n);
    lemma_run(t, n + 1, m);
    assert(t.take(n) =~= a);
    assert(t.subrange(n + 1, n + 1 + m) =~= b);
}

/// A number with a point is rounded once, as the quotient of its digits and the power of
/// ten that the digits behind the point make.
pub proof fn a_fraction_is_rounded_once(a: Seq<char>, b: Seq<char>)
    requires
        a.len() <= 200,
        a.len() + b.len() > 0,
        forall|i: int| 0 <= i < a.len() ==> '0' <= #[trigger] a[i] <= '9',
        forall|i: int| 0 <= i < b.len() ==> '0' <= #[trigger] b[i] <= '9',
    ensures
        ({
            let t = a.push('.') + b;
            let r = double::rounded(
                double::doubled(big::whole(a + b), 1074),
                big::pow10(b.len()),
            );
            &&& number_of(t) == Some(r as int)
            &&& number_of(seq!['-'] + t) == Some(-(r as int))
        }),
{
    let t = a.push('.') + b;
    let minus = seq!['-'] + t;
    let zero = seq!['0'];
    a_point_and_an_exponent_shift_the_digits(a, b, zero);
    assert forall|c: char| #![trigger text::is_digit(c)] text::is_digit(c) implies !text::is_white_space(
        c,
    ) by {}
    assert(a.len() > 0 ==> t[0] == a[0]);
    assert(b.len() > 0 ==> t.last() == b.last());
    assert(t.last() == minus.last());
    lemma_plain_time(t);
    lemma_plain_time(minus);
    let (n, m) = (a.len(), b.len());
    let d = a + b;
    assert forall|i: int| 0 <= i < d.len() implies text::is_digit(#[trigger] d[i]) by {
        if i < n {
            assert(d[i] == a[i]);
        } else {
            assert(d[i] == b[i - n]);
        }
    }
    big::lemma_whole_bound(d);
    lemma_limit();
    big::lemma_pow10_add(n, m);
    big::lemma_pow10_grows(n, 291);
    big::lemma_pow10_positive(m);
    let (w, p, q, l) = (big::whole(d), big::pow10(n), big::pow10(m), limit());
    assert(w < l * q) by (nonlinear_arith)
        requires
            w < p * q,
            p <= l,
            q > 0,
    ;
    if m == 0 {
        assert(w * 1 == w && l * 1 == l) by (nonlinear_arith);
        reveal_with_fuel(big::pow10, 1);
        assert(big::pow10(0) == 1);
    }
}

} // verus!
