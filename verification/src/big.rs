//! Natural numbers of any size, digit by digit.

use vstd::prelude::*;

verus! {

/// Ten to a power.
pub open spec fn pow10(n: nat) -> nat
    decreases n,
{
    if n == 0 {
        1
    } else {
        10 * pow10((n - 1) as nat)
    }
}

/// The number that decimal digits stand for, the lowest digit first.
pub open spec fn value(d: Seq<u8>) -> nat
    decreases d.len(),
{
    if d.len() == 0 {
        0
    } else {
        value(d.drop_last()) + d.last() as nat * pow10((d.len() - 1) as nat)
    }
}

/// The digit at a place, zero beyond the last.
pub open spec fn digit_at(d: Seq<u8>, i: int) -> nat {
    if 0 <= i < d.len() {
        d[i] as nat
    } else {
        0
    }
}

/// The number that the lowest `i` digits stand for.
pub open spec fn low(d: Seq<u8>, i: int) -> nat {
    if i < d.len() {
        value(d.take(i))
    } else {
        value(d)
    }
}

/// Each element is a decimal digit.
pub open spec fn all_digits(d: Seq<u8>) -> bool {
    forall|i: int| 0 <= i < d.len() ==> #[trigger] d[i] < 10
}

/// The number that decimal characters stand for, the highest first.
pub open spec fn whole(s: Seq<char>) -> nat
    decreases s.len(),
{
    if s.len() == 0 {
        0
    } else {
        10 * whole(s.drop_last()) + (s.last() as int - '0' as int) as nat
    }
}

/// Each character is a decimal digit.
pub open spec fn all_decimal(s: Seq<char>) -> bool {
    forall|i: int| 0 <= i < s.len() ==> crate::text::is_digit(#[trigger] s[i])
}

/// A natural number of any size.
pub struct Big {
    digits: Vec<u8>,
}

pub proof fn lemma_pow10_add(a: nat, b: nat)
    ensures
        pow10(a + b) == pow10(a) * pow10(b),
    decreases a,
{
    if a > 0 {
        lemma_pow10_add((a - 1) as nat, b);
        let x = pow10((a - 1) as nat);
        let y = pow10(b);
        assert(10 * (x * y) == (10 * x) * y) by (nonlinear_arith);
        assert((a - 1) as nat + b == (a + b - 1) as nat);
    } else {
        assert(1 * pow10(b) == pow10(b)) by (nonlinear_arith);
    }
}

pub proof fn lemma_pow10_positive(n: nat)
    ensures
        pow10(n) > 0,
    decreases n,
{
    if n > 0 {
        lemma_pow10_positive((n - 1) as nat);
    }
}

pub proof fn lemma_pow10_grows(a: nat, b: nat)
    requires
        a <= b,
    ensures
        pow10(a) <= pow10(b),
    decreases b - a,
{
    if a < b {
        lemma_pow10_grows(a, (b - 1) as nat);
        lemma_pow10_positive((b - 1) as nat);
    }
}

proof fn lemma_value_push(d: Seq<u8>, x: u8)
    ensures
        value(d.push(x)) == value(d) + x as nat * pow10(d.len()),
{
    assert(d.push(x).drop_last() =~= d);
}

proof fn lemma_low_step(d: Seq<u8>, i: int)
    requires
        0 <= i,
    ensures
        low(d, i + 1) == low(d, i) + digit_at(d, i) * pow10(i as nat),
{
    if i < d.len() {
        assert(d.take(i + 1).drop_last() =~= d.take(i));
        if i + 1 == d.len() {
            assert(d.take(i + 1) =~= d);
        }
    } else {
        assert(0 * pow10(i as nat) == 0) by (nonlinear_arith);
    }
}

/// A number of `n` digits is below ten to the power of `n`.
pub proof fn lemma_low_bound(d: Seq<u8>, i: int)
    requires
        all_digits(d),
        0 <= i,
    ensures
        low(d, i) < pow10(i as nat),
    decreases i,
{
    if i == 0 {
        if d.len() > 0 {
            assert(d.take(0) =~= Seq::empty());
        }
        assert(low(d, 0) == 0);
    } else {
        lemma_low_bound(d, i - 1);
        lemma_low_step(d, i - 1);
        let p = pow10((i - 1) as nat);
        let x = digit_at(d, i - 1);
        assert(x <= 9);
        assert(x * p <= 9 * p) by (nonlinear_arith)
            requires
                x <= 9,
        ;
    }
}

proof fn lemma_value_bound(d: Seq<u8>)
    requires
        all_digits(d),
    ensures
        value(d) < pow10(d.len()),
{
    lemma_low_bound(d, d.len() as int);
}

/// The highest characters weigh by the number of the lower ones.
pub proof fn lemma_whole_concat(a: Seq<char>, b: Seq<char>)
    requires
        all_decimal(b),
    ensures
        whole(a + b) == whole(a) * pow10(b.len()) + whole(b),
    decreases b.len(),
{
    if b.len() == 0 {
        assert(a + b =~= a);
        assert(whole(a) * 1 == whole(a)) by (nonlinear_arith);
    } else {
        let r = b.drop_last();
        assert((a + b).drop_last() =~= a + r);
        assert((a + b).last() == b.last());
        lemma_whole_concat(a, r);
        let w = whole(a);
        let p = pow10(r.len());
        assert(10 * (w * p + whole(r)) == w * (10 * p) + 10 * whole(r)) by (nonlinear_arith);
        assert(b.len() - 1 == r.len());
    }
}

/// A number of `n` characters is below ten to the power of `n`, and not below
/// a tenth of that when it does not start with a zero.
pub proof fn lemma_whole_bound(s: Seq<char>)
    requires
        all_decimal(s),
    ensures
        whole(s) < pow10(s.len()),
        s.len() > 0 && s[0] != '0' ==> whole(s) >= pow10((s.len() - 1) as nat),
    decreases s.len(),
{
    if s.len() > 0 {
        let r = s.drop_last();
        lemma_whole_bound(r);
        assert(crate::text::is_digit(s.last()));
        if s.len() == 1 {
            assert(whole(r) == 0);
            assert(s.last() == s[0]);
        } else {
            assert(r[0] == s[0]);
        }
    }
}

impl Big {
    /// The digits are digits.
    pub closed spec fn wf(&self) -> bool {
        all_digits(self.digits@)
    }

    /// The number.
    pub closed spec fn view(&self) -> nat {
        value(self.digits@)
    }

    /// Zero.
    pub fn zero() -> (r: Big)
        ensures
            r.wf(),
            r@ == 0,
    {
        Big { digits: Vec::new() }
    }

    /// One.
    pub fn one() -> (r: Big)
        ensures
            r.wf(),
            r@ == 1,
    {
        let r = Big { digits: vec![1] };
        proof {
            assert(r.digits@.drop_last() =~= Seq::empty());
            assert(value(r.digits@.drop_last()) == 0);
            let (x, p) = (r.digits@.last() as nat, pow10(0));
            assert(x * p == 1) by (nonlinear_arith)
                requires
                    x == 1,
                    p == 1,
            ;
        }
        r
    }

    /// The number that the characters from `from` up to `to` stand for.
    pub fn from_chars(s: &Vec<char>, from: usize, to: usize) -> (r: Big)
        requires
            from <= to <= s@.len(),
            all_decimal(s@.subrange(from as int, to as int)),
        ensures
            r.wf(),
            r@ == whole(s@.subrange(from as int, to as int)),
    {
        let ghost all = s@.subrange(from as int, to as int);
        let mut digits: Vec<u8> = Vec::new();
        let mut i: usize = to;
        assert(s@.subrange(to as int, to as int) =~= Seq::empty());
        while i > from
            invariant
                from <= i <= to <= s@.len(),
                all == s@.subrange(from as int, to as int),
                all_decimal(all),
                all_digits(digits@),
                digits@.len() == to - i,
                value(digits@) == whole(s@.subrange(i as int, to as int)),
            decreases i,
        {
            let ghost before = digits@;
            i = i - 1;
            let c = s[i];
            assert(all[i - from] == c);
            assert(crate::text::is_digit(c));
            let x = c as u32 - '0' as u32;
            digits.push(x as u8);
            proof {
                lemma_value_push(before, x as u8);
                let one = seq![c];
                let rest = s@.subrange(i + 1, to as int);
                assert(s@.subrange(i as int, to as int) =~= one + rest);
                assert forall|j: int| 0 <= j < rest.len() implies crate::text::is_digit(
                    #[trigger] rest[j],
                ) by {
                    assert(all[i + 1 - from + j] == rest[j]);
                }
                lemma_whole_concat(one, rest);
                assert(one.drop_last() =~= Seq::empty());
                assert(whole(one.drop_last()) == 0);
                assert(one.last() == c);
                assert(whole(one) == x as nat);
            }
        }
        assert(s@.subrange(i as int, to as int) =~= all);
        Big { digits }
    }

    /// The number times ten to the power of `n`.
    pub fn shifted(&self, n: u128) -> (r: Big)
        requires
            self.wf(),
        ensures
            r.wf(),
            r@ == self@ * pow10(n as nat),
    {
        let mut digits: Vec<u8> = Vec::new();
        let mut k: u128 = 0;
        while k < n
            invariant
                k <= n,
                digits@.len() == k,
                all_digits(digits@),
                value(digits@) == 0,
            decreases n - k,
        {
            let ghost before = digits@;
            digits.push(0);
            proof {
                lemma_value_push(before, 0);
                assert(0 * pow10(before.len()) == 0) by (nonlinear_arith);
            }
            k = k + 1;
        }
        let mut i: usize = 0;
        proof {
            if self.digits@.len() > 0 {
                assert(self.digits@.take(0) =~= Seq::empty());
            }
            assert(low(self.digits@, 0) == 0);
            assert(0 * pow10(n as nat) == 0) by (nonlinear_arith);
        }
        while i < self.digits.len()
            invariant
                i <= self.digits@.len(),
                all_digits(self.digits@),
                all_digits(digits@),
                digits@.len() == n + i,
                value(digits@) == low(self.digits@, i as int) * pow10(n as nat),
            decreases self.digits@.len() - i,
        {
            let ghost before = digits@;
            let x = self.digits[i];
            digits.push(x);
            proof {
                lemma_value_push(before, x);
                lemma_low_step(self.digits@, i as int);
                lemma_pow10_add(n as nat, i as nat);
                let a = low(self.digits@, i as int);
                let p = pow10(n as nat);
                let q = pow10(i as nat);
                let y = x as nat;
                assert((a + y * q) * p == a * p + y * (p * q)) by (nonlinear_arith);
            }
            i = i + 1;
        }
        Big { digits }
    }

    fn digit(&self, i: usize) -> (r: u8)
        requires
            self.wf(),
        ensures
            r == digit_at(self.digits@, i as int),
            r < 10,
    {
        if i < self.digits.len() {
            self.digits[i]
        } else {
            0
        }
    }

    /// The sum of two numbers, if it has no more digits than memory holds.
    pub fn plus(&self, other: &Big) -> (r: Big)
        requires
            self.wf(),
            other.wf(),
        ensures
            r.wf(),
            r@ == self@ + other@,
    {
        let n: usize = if self.digits.len() < other.digits.len() {
            other.digits.len()
        } else {
            self.digits.len()
        };
        let mut digits: Vec<u8> = Vec::new();
        let mut carry: u8 = 0;
        let mut i: usize = 0;
        let ghost a = self.digits@;
        let ghost b = other.digits@;
        proof {
            lemma_low_bound(a, 0);
            lemma_low_bound(b, 0);
        }
        while i < n
            invariant
                i <= n,
                a == self.digits@,
                b == other.digits@,
                self.wf(),
                other.wf(),
                carry <= 1,
                all_digits(digits@),
                digits@.len() == i,
                value(digits@) + carry as nat * pow10(i as nat) == low(a, i as int) + low(b, i as int),
            decreases n - i,
        {
            let ghost before = digits@;
            let ghost old_carry = carry;
            let x: u8 = self.digit(i);
            let y: u8 = other.digit(i);
            let t: u8 = x + y + carry;
            let out: u8 = if t >= 10 {
                t - 10
            } else {
                t
            };
            digits.push(out);
            carry = if t >= 10 {
                1
            } else {
                0
            };
            proof {
                lemma_value_push(before, out);
                lemma_low_step(a, i as int);
                lemma_low_step(b, i as int);
                let p = pow10(i as nat);
                let (o, c, c0, xn, yn) = (
                    out as nat,
                    carry as nat,
                    old_carry as nat,
                    x as nat,
                    y as nat,
                );
                assert(o + 10 * c == xn + yn + c0);
                assert(o * p + c * (10 * p) == c0 * p + xn * p + yn * p) by (nonlinear_arith)
                    requires
                        o + 10 * c == xn + yn + c0,
                ;
            }
            i = i + 1;
        }
        let ghost before = digits@;
        digits.push(carry);
        proof {
            lemma_value_push(before, carry);
        }
        Big { digits }
    }

    /// The difference of two numbers, the smaller one taken away.
    pub fn minus(&self, other: &Big) -> (r: Big)
        requires
            self.wf(),
            other.wf(),
            other@ <= self@,
        ensures
            r.wf(),
            r@ == self@ - other@,
    {
        let n: usize = if self.digits.len() < other.digits.len() {
            other.digits.len()
        } else {
            self.digits.len()
        };
        let mut digits: Vec<u8> = Vec::new();
        let mut borrow: u8 = 0;
        let mut i: usize = 0;
        let ghost a = self.digits@;
        let ghost b = other.digits@;
        proof {
            lemma_low_bound(a, 0);
            lemma_low_bound(b, 0);
            assert(0 * pow10(0) == 0) by (nonlinear_arith);
        }
        while i < n
            invariant
                i <= n,
                a == self.digits@,
                b == other.digits@,
                self.wf(),
                other.wf(),
                borrow <= 1,
                all_digits(digits@),
                digits@.len() == i,
                value(digits@) + low(b, i as int) == low(a, i as int) + borrow as nat * pow10(i as nat),
            decreases n - i,
        {
            let ghost before = digits@;
            let ghost old_borrow = borrow;
            let x: u8 = self.digit(i);
            let y: u8 = other.digit(i);
            let out: u8 = if x >= y + borrow {
                x - y - borrow
            } else {
                x + 10 - y - borrow
            };
            digits.push(out);
            borrow = if x >= y + borrow {
                0
            } else {
                1
            };
            proof {
                lemma_value_push(before, out);
                lemma_low_step(a, i as int);
                lemma_low_step(b, i as int);
                let p = pow10(i as nat);
                let (o, c, c0, xn, yn) = (
                    out as nat,
                    borrow as nat,
                    old_borrow as nat,
                    x as nat,
                    y as nat,
                );
                assert(o + yn + c0 == xn + 10 * c);
                assert(o * p + yn * p + c0 * p == xn * p + c * (10 * p)) by (nonlinear_arith)
                    requires
                        o + yn + c0 == xn + 10 * c,
                ;
            }
            i = i + 1;
        }
        proof {
            lemma_value_bound(digits@);
            let (c, p) = (borrow as nat, pow10(i as nat));
            if c == 1 {
                assert(c * p == p) by (nonlinear_arith)
                    requires
                        c == 1,
                ;
            } else {
                assert(c * p == 0) by (nonlinear_arith)
                    requires
                        c == 0,
                ;
            }
        }
        Big { digits }
    }

    /// The number times a small one.
    pub fn times(&self, k: u32) -> (r: Big)
        requires
            self.wf(),
        ensures
            r.wf(),
            r@ == self@ * k,
    {
        let mut digits: Vec<u8> = Vec::new();
        let mut carry: u64 = 0;
        let mut i: usize = 0;
        let ghost a = self.digits@;
        proof {
            lemma_low_bound(a, 0);
            assert(0 * (k as nat) == 0) by (nonlinear_arith);
        }
        while i < self.digits.len()
            invariant
                i <= self.digits@.len(),
                a == self.digits@,
                self.wf(),
                carry <= k,
                all_digits(digits@),
                digits@.len() == i,
                value(digits@) + carry as nat * pow10(i as nat) == low(a, i as int) * (k as nat),
            decreases self.digits@.len() - i,
        {
            let ghost before = digits@;
            let ghost old_carry = carry;
            let x: u8 = self.digit(i);
            assert(x as int * k as int <= 9 * (k as int)) by (nonlinear_arith)
                requires
                    x < 10,
            ;
            assert(0 <= x as int * k as int) by (nonlinear_arith);
            let t: u64 = x as u64 * k as u64 + carry;
            let out: u8 = (t % 10) as u8;
            digits.push(out);
            carry = t / 10;
            proof {
                lemma_value_push(before, out);
                lemma_low_step(a, i as int);
                let p = pow10(i as nat);
                let (o, c, c0, xn, kn) = (
                    out as nat,
                    carry as nat,
                    old_carry as nat,
                    x as nat,
                    k as nat,
                );
                let l = low(a, i as int);
                assert(o + 10 * c == xn * kn + c0);
                assert(o * p + c * (10 * p) == c0 * p + (xn * p) * kn) by (nonlinear_arith)
                    requires
                        o + 10 * c == xn * kn + c0,
                ;
                assert((l + xn * p) * kn == l * kn + (xn * p) * kn) by (nonlinear_arith);
            }
            i = i + 1;
        }
        while carry > 0
            invariant
                all_digits(digits@),
                value(digits@) + carry as nat * pow10(digits@.len()) == value(a) * (k as nat),
            decreases carry,
        {
            let ghost before = digits@;
            let ghost old_carry = carry;
            let out: u8 = (carry % 10) as u8;
            digits.push(out);
            carry = carry / 10;
            proof {
                lemma_value_push(before, out);
                let p = pow10(before.len());
                let (o, c, c0) = (out as nat, carry as nat, old_carry as nat);
                assert(o + 10 * c == c0);
                assert(o * p + c * (10 * p) == c0 * p) by (nonlinear_arith)
                    requires
                        o + 10 * c == c0,
                ;
            }
        }
        assert(0 * pow10(digits@.len()) == 0) by (nonlinear_arith);
        Big { digits }
    }

    /// Whether the number is at most another.
    pub fn at_most(&self, other: &Big) -> (r: bool)
        requires
            self.wf(),
            other.wf(),
        ensures
            r == (self@ <= other@),
    {
        let n: usize = if self.digits.len() < other.digits.len() {
            other.digits.len()
        } else {
            self.digits.len()
        };
        let mut below = true;
        let mut i: usize = 0;
        let ghost a = self.digits@;
        let ghost b = other.digits@;
        proof {
            lemma_low_bound(a, 0);
            lemma_low_bound(b, 0);
        }
        while i < n
            invariant
                i <= n,
                a == self.digits@,
                b == other.digits@,
                self.wf(),
                other.wf(),
                below == (low(a, i as int) <= low(b, i as int)),
            decreases n - i,
        {
            let x: u8 = self.digit(i);
            let y: u8 = other.digit(i);
            proof {
                lemma_low_step(a, i as int);
                lemma_low_step(b, i as int);
                lemma_low_bound(a, i as int);
                lemma_low_bound(b, i as int);
                let p = pow10(i as nat);
                let (xn, yn) = (x as nat, y as nat);
                if xn < yn {
                    assert(xn * p + p <= yn * p) by (nonlinear_arith)
                        requires
                            xn + 1 <= yn,
                    ;
                }
                if yn < xn {
                    assert(yn * p + p <= xn * p) by (nonlinear_arith)
                        requires
                            yn + 1 <= xn,
                    ;
                }
            }
            if x < y {
                below = true;
            } else if y < x {
                below = false;
            }
            i = i + 1;
        }
        below
    }
}

/// Ten to a power is ten times the power before.
pub proof fn powers_of_ten_multiply(n: nat)
    ensures
        pow10(0) == 1,
        pow10(n + 1) == 10 * pow10(n),
{
}

/// One more character weighs what it stands for, and those before it ten times as much.
pub proof fn one_more_character_shifts_the_rest(s: Seq<char>, c: char)
    requires
        '0' <= c <= '9',
    ensures
        whole(Seq::<char>::empty()) == 0,
        whole(s.push(c)) == 10 * whole(s) + (c as int - 48),
{
    assert(s.push(c).drop_last() =~= s);
}

/// Decimal characters are those from zero to nine.
pub proof fn decimal_characters_are_these(s: Seq<char>)
    ensures
        all_decimal(s) <==> forall|i: int| 0 <= i < s.len() ==> '0' <= #[trigger] s[i] <= '9',
{
    if all_decimal(s) {
        assert forall|i: int| 0 <= i < s.len() implies '0' <= #[trigger] s[i] <= '9' by {
            assert(crate::text::is_digit(s[i]));
        }
    }
}

} // verus!
