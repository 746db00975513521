//! Double precision, counted in units of its least number above zero: two to the
//! power of minus 1074. Every number of double precision is a whole number of units,
//! so what is rounded to it is rounded to whole units, and to fewer of them the larger
//! it is.

use vstd::prelude::*;

use crate::big;
use crate::big::Big;

verus! {

/// A number doubled `k` times.
pub open spec fn doubled(n: nat, k: nat) -> nat
    decreases k,
{
    if k == 0 {
        n
    } else {
        2 * doubled(n, (k - 1) as nat)
    }
}

/// The whole number nearest to `p / q`, and the even one of two that are as near.
pub open spec fn nearest(p: nat, q: nat) -> nat {
    let f = p / q;
    let r = p % q;
    if 2 * r > q || (2 * r == q && f % 2 == 1) {
        f + 1
    } else {
        f
    }
}

/// `p / q` units rounded to fifty-three binary digits: to a whole number of units
/// while that takes no more of them, and else to a whole number of units twice as
/// large.
pub open spec fn rounded(p: nat, q: nat) -> nat
    decreases p - q,
{
    if q == 0 || p < 9_007_199_254_740_992 * q {
        nearest(p, q)
    } else {
        2 * rounded(p, 2 * q)
    }
}

/// A result of double precision.
pub enum Double {
    /// So many units.
    Finite(int),
    /// Beyond the largest number.
    Infinite { negative: bool },
    /// The sum of two infinities that are not the same.
    NotANumber,
}

/// How many units one is.
pub open spec fn one() -> nat {
    doubled(1, 1074)
}

/// The least number of units that is too large: two to the power of 1024.
pub open spec fn beyond() -> nat {
    doubled(1, 2098)
}

/// A number with a sign.
pub open spec fn signed(negative: bool, n: nat) -> int {
    if negative {
        -(n as int)
    } else {
        n as int
    }
}

/// A whole number of units, rounded to double precision.
pub open spec fn settled(n: int) -> Double {
    let m = rounded(
        if n < 0 {
            (-n) as nat
        } else {
            n as nat
        },
        1,
    );
    if m >= beyond() {
        Double::Infinite { negative: n < 0 }
    } else {
        Double::Finite(signed(n < 0, m))
    }
}

/// A product with a whole number.
pub open spec fn product(n: int, weight: nat) -> Double {
    settled(n * weight)
}

/// A sum.
pub open spec fn sum(a: Double, b: Double) -> Double {
    match (a, b) {
        (Double::Finite(x), Double::Finite(y)) => settled(x + y),
        (Double::NotANumber, _) => Double::NotANumber,
        (_, Double::NotANumber) => Double::NotANumber,
        (Double::Finite(_), y) => y,
        (x, Double::Finite(_)) => x,
        (Double::Infinite { negative: x }, Double::Infinite { negative: y }) => if x == y {
            a
        } else {
            Double::NotANumber
        },
    }
}

/// Doubling is multiplying by a power of two.
pub proof fn lemma_doubled_times(n: nat, k: nat)
    ensures
        doubled(n, k) == doubled(1, k) * n,
    decreases k,
{
    if k == 0 {
        assert(1 * n == n) by (nonlinear_arith);
    } else {
        lemma_doubled_times(n, (k - 1) as nat);
        let d = doubled(1, (k - 1) as nat);
        assert((2 * d) * n == 2 * (d * n)) by (nonlinear_arith);
    }
}

proof fn lemma_doubled_53(n: nat)
    ensures
        doubled(n, 53) == 9_007_199_254_740_992 * n,
{
    lemma_doubled_times(n, 53);
    reveal_with_fuel(doubled, 54);
    assert(doubled(1, 53) == 9_007_199_254_740_992);
}

/// A number doubled once, twice and so on.
fn doublings(n: &Big, count: usize) -> (v: Vec<Big>)
    requires
        n.wf(),
    ensures
        v@.len() == count,
        forall|i: int| 0 <= i < count ==> (#[trigger] v@[i]).wf(),
        forall|i: int| 0 <= i < count ==> (#[trigger] v@[i])@ == doubled(n@, i as nat),
{
    let mut v: Vec<Big> = Vec::new();
    let mut next = n.times(1);
    while v.len() < count
        invariant
            v@.len() <= count,
            next.wf(),
            next@ == doubled(n@, v@.len()),
            forall|i: int| 0 <= i < v@.len() ==> (#[trigger] v@[i]).wf(),
            forall|i: int| 0 <= i < v@.len() ==> (#[trigger] v@[i])@ == doubled(n@, i as nat),
        decreases count - v@.len(),
    {
        let after = next.times(2);
        v.push(next);
        next = after;
    }
    v
}

/// A number doubled `k` times.
pub fn doubled_big(n: &Big, k: u32) -> (r: Big)
    requires
        n.wf(),
    ensures
        r.wf(),
        r@ == doubled(n@, k as nat),
{
    let mut r = n.times(1);
    let mut i: u32 = 0;
    while i < k
        invariant
            i <= k,
            r.wf(),
            r@ == doubled(n@, i as nat),
        decreases k - i,
    {
        r = r.times(2);
        i = i + 1;
    }
    r
}

/// `p / s` rounded to a whole number, in units that are `u` of the least ones.
fn nearest_big(p: &Big, s: &Big, u: &Big) -> (r: Big)
    requires
        p.wf(),
        s.wf(),
        u.wf(),
        s@ > 0,
        p@ < 9_007_199_254_740_992 * s@,
    ensures
        r.wf(),
        r@ == nearest(p@, s@) * u@,
{
    let parts = doublings(s, 53);
    let units = doublings(u, 53);
    let ghost mut f: nat = 0;
    let mut below = Big::zero();
    let mut found = Big::zero();
    let mut odd = false;
    let mut b: usize = 53;
    proof {
        lemma_doubled_53(s@);
        assert(0 * s@ == 0 && 0 * u@ == 0) by (nonlinear_arith);
    }
    while b > 0
        invariant
            b <= 53,
            p.wf(),
            s.wf(),
            u.wf(),
            below.wf(),
            found.wf(),
            parts@.len() == 53,
            units@.len() == 53,
            forall|i: int| 0 <= i < 53 ==> (#[trigger] parts@[i]).wf(),
            forall|i: int| 0 <= i < 53 ==> (#[trigger] parts@[i])@ == doubled(s@, i as nat),
            forall|i: int| 0 <= i < 53 ==> (#[trigger] units@[i]).wf(),
            forall|i: int| 0 <= i < 53 ==> (#[trigger] units@[i])@ == doubled(u@, i as nat),
            below@ == f * s@,
            found@ == f * u@,
            below@ <= p@ < below@ + doubled(s@, b as nat),
            b > 0 ==> f % 2 == 0,
            odd == (f % 2 == 1),
        decreases b,
    {
        b = b - 1;
        assert(parts@[b as int].wf() && units@[b as int].wf());
        assert(doubled(s@, (b + 1) as nat) == 2 * doubled(s@, b as nat));
        let next = below.plus(&parts[b]);
        if next.at_most(p) {
            proof {
                let w = doubled(1, b as nat);
                lemma_doubled_times(s@, b as nat);
                lemma_doubled_times(u@, b as nat);
                let (g, x, y) = (f, s@, u@);
                assert((g + w) * x == g * x + w * x) by (nonlinear_arith);
                assert((g + w) * y == g * y + w * y) by (nonlinear_arith);
                if b > 0 {
                    assert(w == 2 * doubled(1, (b - 1) as nat));
                } else {
                    assert(w == 1);
                }
                f = f + w;
            }
            below = next;
            found = found.plus(&units[b]);
            odd = b == 0;
        }
    }
    proof {
        assert(doubled(s@, 0) == s@);
        let r = (p@ - below@) as int;
        vstd::arithmetic::div_mod::lemma_fundamental_div_mod_converse(
            p@ as int,
            s@ as int,
            f as int,
            r,
        );
    }
    let twice = p.times(2);
    let middle = below.times(2).plus(s);
    let over = middle.at_most(&twice);
    let under = twice.at_most(&middle);
    proof {
        let (g, y) = (f, u@);
        assert((g + 1) * y == g * y + y) by (nonlinear_arith);
    }
    if over && (!under || odd) {
        found.plus(u)
    } else {
        found
    }
}

/// `p / q` units rounded to double precision.
pub fn round_ratio(p: &Big, q: &Big) -> (r: Big)
    requires
        p.wf(),
        q.wf(),
        q@ > 0,
    ensures
        r.wf(),
        r@ == rounded(p@, q@),
{
    let mut s = q.times(1);
    let mut u = Big::one();
    let mut top = doubled_big(q, 53);
    proof {
        lemma_doubled_53(q@);
        assert(1 * rounded(p@, q@) == rounded(p@, q@)) by (nonlinear_arith);
    }
    while top.at_most(p)
        invariant
            p.wf(),
            s.wf(),
            u.wf(),
            top.wf(),
            s@ > 0,
            top@ == 9_007_199_254_740_992 * s@,
            rounded(p@, q@) == u@ * rounded(p@, s@),
        decreases p@ - s@,
    {
        proof {
            let (a, b) = (u@, rounded(p@, 2 * s@));
            assert(rounded(p@, s@) == 2 * b);
            assert(a * (2 * b) == (a * 2) * b) by (nonlinear_arith);
        }
        s = s.times(2);
        u = u.times(2);
        top = top.times(2);
    }
    let r = nearest_big(p, &s, &u);
    proof {
        let (a, b) = (u@, rounded(p@, s@));
        assert(a * b == b * a) by (nonlinear_arith);
    }
    r
}

/// A result of double precision.
pub enum Value {
    /// So many units.
    Finite { negative: bool, units: Big },
    /// Beyond the largest number.
    Infinite { negative: bool },
    /// The sum of two infinities that are not the same.
    NotANumber,
}

impl Value {
    /// The number of units is one.
    pub open spec fn wf(&self) -> bool {
        match self {
            Value::Finite { negative, units } => units.wf(),
            _ => true,
        }
    }

    /// The result.
    pub open spec fn view(&self) -> Double {
        match self {
            Value::Finite { negative, units } => Double::Finite(signed(*negative, units@)),
            Value::Infinite { negative } => Double::Infinite { negative: *negative },
            Value::NotANumber => Double::NotANumber,
        }
    }
}

/// A whole number of units, rounded to double precision.
fn settle(negative: bool, units: &Big) -> (r: Value)
    requires
        units.wf(),
    ensures
        r.wf(),
        r@ == settled(signed(negative, units@)),
{
    let one = Big::one();
    let size = round_ratio(units, &one);
    proof {
        if units@ == 0 {
            assert(rounded(0, 1) == 0);
        }
    }
    let positive = Big::one().at_most(units);
    let negative = negative && positive;
    if doubled_big(&one, 2098).at_most(&size) {
        Value::Infinite { negative }
    } else {
        Value::Finite { negative, units: size }
    }
}

/// A product with a whole number.
pub fn times(negative: bool, units: &Big, weight: u32) -> (r: Value)
    requires
        units.wf(),
    ensures
        r.wf(),
        r@ == product(signed(negative, units@), weight as nat),
{
    let size = units.times(weight);
    proof {
        let (u, w) = (units@ as int, weight as int);
        assert((-u) * w == -(u * w)) by (nonlinear_arith);
    }
    settle(negative, &size)
}

/// A sum.
pub fn plus(a: &Value, b: &Value) -> (r: Value)
    requires
        a.wf(),
        b.wf(),
    ensures
        r.wf(),
        r@ == sum(a@, b@),
{
    match (a, b) {
        (Value::NotANumber, _) => Value::NotANumber,
        (_, Value::NotANumber) => Value::NotANumber,
        (Value::Infinite { negative: x }, Value::Infinite { negative: y }) => {
            if *x == *y {
                Value::Infinite { negative: *x }
            } else {
                Value::NotANumber
            }
        },
        (Value::Infinite { negative }, Value::Finite { .. }) => Value::Infinite {
            negative: *negative,
        },
        (Value::Finite { .. }, Value::Infinite { negative }) => Value::Infinite {
            negative: *negative,
        },
        (
            Value::Finite { negative: x, units: m },
            Value::Finite { negative: y, units: n },
        ) => {
            if *x == *y {
                settle(*x, &m.plus(n))
            } else if n.at_most(m) {
                settle(*x, &m.minus(n))
            } else {
                settle(*y, &n.minus(m))
            }
        },
    }
}

/// What is not negative stays so, and no sum of such is undefined.
pub proof fn lemma_not_negative(a: Double, b: Double, n: int, weight: nat)
    requires
        is_ahead(a),
        is_ahead(b),
        n >= 0,
    ensures
        is_ahead(sum(a, b)),
        is_ahead(product(n, weight)),
{
    assert(n * weight >= 0) by (nonlinear_arith)
        requires
            n >= 0,
            weight >= 0,
    ;
}

/// Zero or above.
pub open spec fn is_ahead(a: Double) -> bool {
    match a {
        Double::Finite(n) => n >= 0,
        Double::Infinite { negative } => !negative,
        Double::NotANumber => false,
    }
}

/// Less than half a unit rounds to nothing.
pub proof fn lemma_rounds_to_nothing(p: nat, q: nat)
    requires
        2 * p < q,
    ensures
        rounded(p, q) == 0,
{
    assert(p / q == 0 && p % q == p) by {
        vstd::arithmetic::div_mod::lemma_fundamental_div_mod_converse(
            p as int,
            q as int,
            0,
            p as int,
        );
    }
}

/// How two to a power lies below ten to a third of it.
pub proof fn lemma_doubled_below(j: nat)
    ensures
        doubled(1, 3 * j) <= big::pow10(j),
    decreases j,
{
    if j > 0 {
        lemma_doubled_below((j - 1) as nat);
        reveal_with_fuel(doubled, 4);
        assert(doubled(1, 3 * j) == 8 * doubled(1, (3 * j - 3) as nat));
        assert((3 * j - 3) as nat == 3 * (j - 1) as nat);
    }
}

/// Doubling once more doubles the result, and doubling the number does so too.
pub proof fn doubling_once_more_doubles(n: nat, k: nat)
    ensures
        doubled(n, 0) == n,
        doubled(n, k + 1) == 2 * doubled(n, k),
        doubled(2 * n, k) == doubled(n, k + 1),
{
    lemma_doubled_times(n, k);
    lemma_doubled_times(2 * n, k);
    let d = doubled(1, k);
    assert(d * (2 * n) == 2 * (d * n)) by (nonlinear_arith);
}

/// One is two to the power of 1074 of the least units, and what is too large is two to the
/// power of 1024 times as much.
pub proof fn units_are_the_least_numbers()
    ensures
        one() == doubled(1, 1074),
        beyond() == doubled(one(), 1024),
{
    lemma_doubled_times(doubled(1, 1074), 1024);
    lemma_doublings_add(1024, 1074);
}

proof fn lemma_doublings_add(a: nat, b: nat)
    ensures
        doubled(1, a + b) == doubled(1, a) * doubled(1, b),
    decreases a,
{
    let d = doubled(1, b);
    if a == 0 {
        assert(1 * d == d) by (nonlinear_arith);
    } else {
        let c = (a - 1) as nat;
        lemma_doublings_add(c, b);
        let e = doubled(1, c);
        assert((c + b) as nat == (a + b - 1) as nat);
        assert((2 * e) * d == 2 * (e * d)) by (nonlinear_arith);
    }
}

/// No whole number is nearer to a quotient than the one that is chosen, and of two as near
/// it is the even one.
pub proof fn the_nearest_whole_number_is_chosen(p: nat, q: nat)
    requires
        q > 0,
    ensures
        2 * (nearest(p, q) * q - p) <= q,
        2 * (p - nearest(p, q) * q) <= q,
        2 * (nearest(p, q) * q - p) == q || 2 * (p - nearest(p, q) * q) == q ==> nearest(p, q) % 2
            == 0,
{
    let (f, r) = (p / q, p % q);
    assert(p == f * q + r && r < q) by (nonlinear_arith)
        requires
            q > 0,
            f == p / q,
            r == p % q,
    ;
    assert((f + 1) * q == f * q + q) by (nonlinear_arith);
}

/// A quotient is rounded to fifty-three binary digits: the result is a whole number `m` of
/// at most so many digits, doubled `k` times; it is off by no more than half of its last
/// place, and where it is off by half `m` is even; and no fewer doublings would do.
pub proof fn a_quotient_keeps_fifty_three_digits(p: nat, q: nat) -> (mk: (nat, nat))
    requires
        q > 0,
    ensures
        ({
            let (m, k) = mk;
            let r = rounded(p, q);
            &&& r == doubled(m, k)
            &&& m <= 9_007_199_254_740_992
            &&& 2 * (r * q - p) <= doubled(q, k)
            &&& 2 * (p - r * q) <= doubled(q, k)
            &&& 2 * (r * q - p) == doubled(q, k) || 2 * (p - r * q) == doubled(q, k) ==> m % 2 == 0
            &&& p < doubled(9_007_199_254_740_992 * q, k)
            &&& k > 0 ==> p >= doubled(9_007_199_254_740_992 * q, (k - 1) as nat)
        }),
    decreases p - q,
{
    if p < 9_007_199_254_740_992 * q {
        the_nearest_whole_number_is_chosen(p, q);
        let m = nearest(p, q);
        assert(m <= 9_007_199_254_740_992) by (nonlinear_arith)
            requires
                2 * (m * q - p) <= q,
                p < 9_007_199_254_740_992 * q,
                q > 0,
        ;
        (m, 0)
    } else {
        let (m, k) = a_quotient_keeps_fifty_three_digits(p, 2 * q);
        let half = rounded(p, 2 * q);
        doubling_once_more_doubles(q, k);
        doubling_once_more_doubles(m, k);
        doubling_once_more_doubles(9_007_199_254_740_992 * q, k);
        assert(9_007_199_254_740_992 * (2 * q) == 2 * (9_007_199_254_740_992 * q));
        if k > 0 {
            doubling_once_more_doubles(9_007_199_254_740_992 * q, (k - 1) as nat);
        }
        assert((2 * half) * q == half * (2 * q)) by (nonlinear_arith);
        assert(rounded(p, q) == 2 * half);
        (m, k + 1)
    }
}

/// What fifty-three binary digits hold is kept as it is.
pub proof fn what_fits_is_not_rounded(m: nat, k: nat, q: nat)
    requires
        m < 9_007_199_254_740_992,
        q > 0,
    ensures
        rounded(doubled(m, k) * q, q) == doubled(m, k),
    decreases k,
{
    let d = doubled(m, k);
    let p = d * q;
    if d < 9_007_199_254_740_992 {
        assert(p < 9_007_199_254_740_992 * q) by (nonlinear_arith)
            requires
                d < 9_007_199_254_740_992,
                q > 0,
                p == d * q,
        ;
        assert(p / q == d && p % q == 0) by {
            vstd::arithmetic::div_mod::lemma_fundamental_div_mod_converse(
                p as int,
                q as int,
                d as int,
                0,
            );
        }
    } else {
        assert(k > 0);
        assert(p >= 9_007_199_254_740_992 * q) by (nonlinear_arith)
            requires
                d >= 9_007_199_254_740_992,
                q > 0,
                p == d * q,
        ;
        let e = doubled(m, (k - 1) as nat);
        assert((2 * e) * q == e * (2 * q)) by (nonlinear_arith);
        what_fits_is_not_rounded(m, (k - 1) as nat, 2 * q);
    }
}

/// A number that double precision holds stays as it is, with its sign, and what is too
/// large is infinite, with its sign.
pub proof fn a_number_settles_at_itself(m: nat, k: nat)
    requires
        m < 9_007_199_254_740_992,
    ensures
        doubled(m, k) < beyond() ==> {
            &&& settled(doubled(m, k) as int) == Double::Finite(doubled(m, k) as int)
            &&& settled(-(doubled(m, k) as int)) == Double::Finite(-(doubled(m, k) as int))
        },
        doubled(m, k) >= beyond() ==> {
            &&& settled(doubled(m, k) as int) == (Double::Infinite { negative: false })
            &&& settled(-(doubled(m, k) as int)) == (Double::Infinite { negative: true })
        },
{
    what_fits_is_not_rounded(m, k, 1);
    let d = doubled(m, k);
    assert(d * 1 == d) by (nonlinear_arith);
    assert(beyond() > 0) by {
        lemma_doubled_positive(2098);
    }
}

pub proof fn lemma_doubled_positive(k: nat)
    ensures
        doubled(1, k) >= 1,
    decreases k,
{
    if k > 0 {
        lemma_doubled_positive((k - 1) as nat);
    }
}

/// Infinities outweigh all that is finite, and cancel out to no number.
pub proof fn infinities_outweigh_the_rest(n: int, a: bool, b: bool)
    ensures
        sum(Double::Finite(n), Double::Infinite { negative: a }) == (Double::Infinite {
            negative: a,
        }),
        sum(Double::Infinite { negative: a }, Double::Finite(n)) == (Double::Infinite {
            negative: a,
        }),
        a == b ==> sum(Double::Infinite { negative: a }, Double::Infinite { negative: b }) == (
        Double::Infinite { negative: a }),
        a != b ==> sum(Double::Infinite { negative: a }, Double::Infinite { negative: b })
            is NotANumber,
        sum(Double::NotANumber, Double::Finite(n)) is NotANumber,
        sum(Double::Finite(n), Double::NotANumber) is NotANumber,
{
}

/// Sums and products of numbers are those of whole numbers, rounded.
pub proof fn sums_and_products_are_rounded(x: int, y: int, weight: nat, n: nat)
    ensures
        sum(Double::Finite(x), Double::Finite(y)) == settled(x + y),
        product(x, weight) == settled(x * weight),
        signed(false, n) == n,
        signed(true, n) == -n,
{
}

} // verus!
