//! Scales that are rounded to 53 significant bits, as the machine's floating-point numbers
//! are, computed with whole numbers.
//!
//! A scale is a fraction whose denominator is a power of two.
use vstd::prelude::*;

verus! {

/// 2 to the power of 52.
pub const BITS_52: u128 = 0x10_0000_0000_0000;

/// 2 to the power of 53.
pub const BITS_53: u128 = 0x20_0000_0000_0000;

/// 2 to the power of 104.
pub const BITS_104: u128 = 0x100_0000_0000_0000_0000_0000_0000;

/// The whole number nearest to `n` over `d`; of two that are equally near, the even one.
pub open spec fn nearest(n: int, d: int) -> int {
    let q = n / d;
    let r = n % d;
    if 2 * r > d || (2 * r == d && q % 2 == 1) {
        q + 1
    } else {
        q
    }
}

/// The first of `d`, its double, the double of that and so on of which `n` has fewer than 2
/// to the power of 53.
pub open spec fn unit(n: int, d: int) -> int
    decreases n - d,
{
    if d <= 0 || n < d * BITS_53 {
        d
    } else {
        unit(n, 2 * d)
    }
}

/// `n`, rounded to 53 significant bits.
pub open spec fn rounded(n: int) -> int {
    nearest(n, unit(n, 1)) * unit(n, 1)
}

/// A fraction.
#[verifier::ext_equal]
pub struct Fraction {
    pub num: int,
    pub den: int,
}

/// `b`, doubled as often as `n` must be until `n` over `d` has 53 bits before the point.
pub open spec fn doubled(n: int, d: int, b: int) -> int
    decreases
        (if n < d * BITS_52 {
            d * BITS_52 - n
        } else {
            0
        }),
{
    if n <= 0 || n >= d * BITS_52 {
        b
    } else {
        doubled(2 * n, d, 2 * b)
    }
}

/// `n` over `d`, rounded to 53 significant bits.
pub open spec fn quotient(n: int, d: int) -> Fraction {
    let b = doubled(n, d, 1);
    Fraction { num: nearest(n * b, d), den: b }
}

/// `r` is the whole number nearest to the root of `n`: the root lies between a half less than
/// `r` and a half more, and is neither, since the squares of those are no whole numbers.
pub open spec fn is_root(n: int, r: int) -> bool {
    r >= 1 && r * r - r < n <= r * r + r
}

/// The whole number nearest to the root of `n`.
pub open spec fn whole_root(n: int) -> int {
    choose|r: int| is_root(n, r)
}

/// `c`, doubled, while `x` is made four times as large, until `x` has reached `g`.
pub open spec fn widened(x: int, g: int, c: int) -> int
    decreases
        (if x < g {
            g - x
        } else {
            0
        }),
{
    if x <= 0 || x >= g {
        c
    } else {
        widened(4 * x, g, 2 * c)
    }
}

/// The root of a fraction, rounded to 53 significant bits.
pub open spec fn root(f: Fraction) -> Fraction {
    let c = widened(f.num, BITS_104 * f.den, 1);
    let n = f.num * c * c / f.den;
    Fraction { num: whole_root(n), den: c }
}

/// `x` times the scale `f`, rounded to 53 significant bits and then down to a whole number.
pub open spec fn scaled(x: int, f: Fraction) -> int {
    rounded(x * f.num) / f.den
}

/// A power of two.
pub open spec fn two_power(b: int) -> bool
    decreases b,
{
    b == 1 || (b > 1 && b % 2 == 0 && two_power(b / 2))
}

/// A scale.
#[derive(Debug, Clone, Copy)]
pub struct Scale {
    num: u128,
    den: u128,
}

impl View for Scale {
    type V = Fraction;

    closed spec fn view(&self) -> Fraction {
        Fraction { num: self.num as int, den: self.den as int }
    }
}

fn nearest_to(n: u128, d: u128) -> (r: u128)
    requires
        d > 0,
        d <= 0x100_0000_0000_0000_0000_0000_0000_0000,
        n <= 0x100_0000_0000_0000_0000_0000_0000_0000,
    ensures
        r == nearest(n as int, d as int),
        r <= n + 1,
{
    let q: u128 = n / d;
    let r: u128 = n % d;
    proof {
        vstd::arithmetic::div_mod::lemma_div_is_ordered_by_denominator(n as int, 1, d as int);
    }
    if 2 * r > d || (2 * r == d && q % 2 == 1) {
        q + 1
    } else {
        q
    }
}

/// `n`, rounded to 53 significant bits.
pub fn round(n: u128) -> (r: u128)
    requires
        n <= 0x1000_0000_0000_0000_0000_0000,
    ensures
        r == rounded(n as int),
        r <= 2 * n,
{
    let mut d: u128 = 1;
    while n >= d * BITS_53
        invariant
            n <= 0x1000_0000_0000_0000_0000_0000,
            1 <= d,
            d * BITS_52 <= n || d == 1,
            unit(n as int, 1) == unit(n as int, d as int),
        decreases n - d,
    {
        d = 2 * d;
    }
    proof {
        lemma_rounded(n as int);
    }
    let m: u128 = nearest_to(n, d);
    proof {
        lemma_nearest(n as int, d as int);
        assert(0 <= m * d <= n + d) by (nonlinear_arith)
            requires
                2 * (m * d) <= 2 * n + d,
                m >= 0,
                d >= 1,
        ;
    }
    m * d
}

impl Scale {
    /// The denominator is a power of two, and the numerator has 53 bits, or is the next
    /// power of two.
    pub closed spec fn wf(&self) -> bool {
        &&& two_power(self.den as int)
        &&& BITS_52 <= self.num <= BITS_53
        &&& self.den <= 0x40_0000_0000_0000_0000_0000_0000_0000
    }

    /// `n` over `d`, rounded.
    pub fn quotient(n: u32, d: u128) -> (r: Self)
        requires
            0 < n,
            0 < d <= 0x2_0000_0000_0000_0000,
        ensures
            r.wf(),
            r@ == quotient(n as int, d as int),
            r@.num >= 1,
            r@.num <= BITS_53,
            r@.den >= 1,
    {
        let mut num: u128 = n as u128;
        let mut den: u128 = 1;
        assert(two_power(1));
        while num < d * BITS_52
            invariant
                0 < n,
                0 < d <= 0x2_0000_0000_0000_0000,
                1 <= den <= num,
                num == n * den,
                num < 2 * (d * BITS_52),
                two_power(den as int),
                doubled(n as int, d as int, 1) == doubled(num as int, d as int, den as int),
            decreases 2 * (d * BITS_52) - num,
        {
            assert((2 * den) / 2 == den);
            num = 2 * num;
            den = 2 * den;
            assert(num == n * den) by (nonlinear_arith)
                requires
                    num == 2 * (n * (den / 2)),
                    den % 2 == 0,
            ;
        }
        let m: u128 = nearest_to(num, d);
        proof {
            lemma_nearest(num as int, d as int);
            assert(m <= BITS_53) by (nonlinear_arith)
                requires
                    num < 2 * (d * BITS_52),
                    2 * (m * d) <= 2 * num + d,
                    d > 0,
                    BITS_53 == 2 * BITS_52,
            ;
            assert(m >= BITS_52) by (nonlinear_arith)
                requires
                    num >= d * BITS_52,
                    2 * (m * d) >= 2 * num - d,
                    d > 0,
            ;
        }
        Scale { num: m, den }
    }

    /// The root, rounded.
    pub fn root(&self) -> (r: Self)
        requires
            self.wf(),
        ensures
            r@ == root(self@),
            r@.num >= 1,
            r@.num <= BITS_53,
            r@.den >= 1,
    {
        let ghost m = self.num as int;
        let ghost b = self.den as int;
        let ghost g = BITS_104 * b;
        // The denominator is c * c * x, and x is 1 or 2 in the end.
        let mut x: u128 = self.den;
        let mut c: u128 = 1;
        assert(c * c * x == b);
        proof {
            lemma_two_power(b);
            assert(m * 1 * 1 == m);
            assert(m < g) by (nonlinear_arith)
                requires
                    m <= BITS_53,
                    g == BITS_104 * b,
                    b >= 1,
            ;
        }
        while x > 2
            invariant
                two_power(x as int),
                x >= 1,
                1 <= c <= 0x40_0000_0000_0000_0000_0000_0000_0000,
                c * c * x == b,
                b <= 0x40_0000_0000_0000_0000_0000_0000_0000,
                m <= BITS_53,
                m >= 1,
                g == BITS_104 * b,
                widened(m, g, 1) == widened(m * c * c, g, c as int),
            decreases x,
        {
            assert(two_power(x as int / 2));
            assert(two_power(x as int / 2 / 2));
            assert(x % 4 == 0);
            let y: u128 = x / 4;
            proof {
                assert(c * c * x == 4 * (c * c) * y) by (nonlinear_arith)
                    requires
                        x == 4 * y,
                ;
                let d = c as int * 2;
                assert(d * d * y == b) by (nonlinear_arith)
                    requires
                        d == 2 * c,
                        4 * (c * c) * y == b,
                ;
                assert(d <= b) by (nonlinear_arith)
                    requires
                        d * d * y == b,
                        d >= 1,
                        y >= 1,
                ;
                assert(m * c * c < g) by (nonlinear_arith)
                    requires
                        c * c * x == b,
                        x >= 1,
                        c >= 1,
                        1 <= m <= BITS_53,
                        g == BITS_104 * b,
                ;
                assert(m * c * c > 0) by (nonlinear_arith)
                    requires
                        m >= 1,
                        c >= 1,
                ;
                assert(4 * (m * c * c) == m * d * d) by (nonlinear_arith)
                    requires
                        d == 2 * c,
                ;
            }
            x = y;
            c = 2 * c;
        }
        let mut t: u128 = 1;
        if x == 2 {
            proof {
                let d = c as int * 2;
                assert(d * d == b * 2) by (nonlinear_arith)
                    requires
                        d == 2 * c,
                        c * c * 2 == b,
                ;
                assert(m * c * c < g) by (nonlinear_arith)
                    requires
                        c * c * 2 == b,
                        c >= 1,
                        1 <= m <= BITS_53,
                        g == BITS_104 * b,
                ;
                assert(m * c * c > 0) by (nonlinear_arith)
                    requires
                        m >= 1,
                        c >= 1,
                ;
                assert(4 * (m * c * c) == m * d * d) by (nonlinear_arith)
                    requires
                        d == 2 * c,
                ;
                assert(d <= 2 * b) by (nonlinear_arith)
                    requires
                        d * d == b * 2,
                        d >= 1,
                ;
            }
            c = 2 * c;
            t = 2;
        } else {
            assert(c * c * 1 == c * c) by (nonlinear_arith);
            assert(c * c == b * 1);
        }
        self.root_at(c, t)
    }

    /// The root, where `c` times `c` is `t` times the denominator and is not too large.
    fn root_at(&self, c: u128, t: u128) -> (r: Self)
        requires
            self.wf(),
            1 <= t <= 2,
            1 <= c <= 0x80_0000_0000_0000_0000_0000_0000_0000,
            c * c == self@.den * t,
            widened(self@.num, BITS_104 * self@.den, 1) == widened(
                self@.num * c * c,
                BITS_104 * self@.den,
                c as int,
            ),
        ensures
            r@ == root(self@),
            r@.num >= 1,
            r@.num <= BITS_53,
            r@.den >= 1,
    {
        let ghost m = self.num as int;
        let ghost b = self.den as int;
        let ghost g = BITS_104 * b;
        let mut c: u128 = c;
        let mut t: u128 = t;
        assert(self.num * t <= BITS_53 * 2) by (nonlinear_arith)
            requires
                self.num <= BITS_53,
                t <= 2,
        ;
        proof {
            lemma_two_power(b);
        }
        while self.num * t < BITS_104
            invariant
                m == self.num,
                b == self.den,
                b >= 1,
                b <= 0x40_0000_0000_0000_0000_0000_0000_0000,
                g == BITS_104 * b,
                BITS_52 <= self.num <= BITS_53,
                1 <= t,
                1 <= c <= 0x80_0000_0000_0000_0000_0000_0000_0000,
                c * c == b * t,
                self.num * t < 4 * BITS_104,
                widened(m, g, 1) == widened(m * c * c, g, c as int),
            decreases 4 * BITS_104 - self.num * t,
        {
            proof {
                assert(t <= BITS_52) by (nonlinear_arith)
                    requires
                        m * t < BITS_104,
                        m >= BITS_52,
                        BITS_104 == BITS_52 * BITS_52,
                        t >= 1,
                ;
                let d = c as int * 2;
                let u = t as int * 4;
                assert(d * d == b * u) by (nonlinear_arith)
                    requires
                        d == 2 * c,
                        u == 4 * t,
                        c * c == b * t,
                ;
                assert(b * u <= 0x40_0000_0000_0000_0000_0000_0000_0000 * (4 * BITS_52))
                    by (nonlinear_arith)
                    requires
                        1 <= b <= 0x40_0000_0000_0000_0000_0000_0000_0000,
                        0 <= u <= 4 * BITS_52,
                ;
                assert(d <= 0x80_0000_0000_0000_0000_0000_0000_0000) by (nonlinear_arith)
                    requires
                        d * d <= 0x40_0000_0000_0000_0000_0000_0000_0000 * (4 * BITS_52),
                        BITS_52 == 0x10_0000_0000_0000,
                ;
                assert(m * c * c == (m * t) * b) by (nonlinear_arith)
                    requires
                        c * c == b * t,
                ;
                assert((m * t) * b < g) by (nonlinear_arith)
                    requires
                        m * t < BITS_104,
                        b >= 1,
                        g == BITS_104 * b,
                ;
                assert((m * t) * b > 0) by (nonlinear_arith)
                    requires
                        m >= 1,
                        t >= 1,
                        b >= 1,
                ;
                assert(4 * (m * c * c) == m * d * d) by (nonlinear_arith)
                    requires
                        d == 2 * c,
                ;
                assert(m * u == 4 * (m * t)) by (nonlinear_arith)
                    requires
                        u == 4 * t,
                ;
                assert(m * t > 0) by (nonlinear_arith)
                    requires
                        m >= 1,
                        t >= 1,
                ;
            }
            t = 4 * t;
            c = 2 * c;
        }
        let n: u128 = self.num * t;
        proof {
            assert(m * c * c == n * b) by (nonlinear_arith)
                requires
                    c * c == b * t,
                    n == m * t,
            ;
            assert(n * b >= g) by (nonlinear_arith)
                requires
                    n >= BITS_104,
                    b >= 1,
                    g == BITS_104 * b,
            ;
            vstd::arithmetic::div_mod::lemma_div_by_multiple(n as int, b);
        }
        Scale { num: nearest_root(n), den: c }
    }

    /// `x` times the scale, rounded down to a whole number.
    pub fn of(&self, x: u32) -> (r: u128)
        requires
            1 <= self@.num <= BITS_53,
            self@.den >= 1,
        ensures
            r == scaled(x as int, self@),
    {
        assert(x * self.num <= 0xFFFF_FFFF * BITS_53) by (nonlinear_arith)
            requires
                x <= 0xFFFF_FFFF,
                self.num <= BITS_53,
        ;
        round(x as u128 * self.num) / self.den
    }
}

/// The root of `n`, rounded.
fn nearest_root(n: u128) -> (r: u128)
    requires
        BITS_104 <= n < 4 * BITS_104,
    ensures
        r == whole_root(n as int),
        1 <= r <= BITS_53,
{
    let mut low: u128 = 1;
    let mut high: u128 = BITS_53 + 1;
    assert(low * low - low < n);
    assert(BITS_53 * BITS_53 == 4 * BITS_104);
    assert(high * high - high >= n) by (nonlinear_arith)
        requires
            high == BITS_53 + 1,
            BITS_53 * BITS_53 == 4 * BITS_104,
            n < 4 * BITS_104,
    ;
    while high - low > 1
        invariant
            1 <= low < high <= BITS_53 + 1,
            low * low - low < n,
            high * high - high >= n,
        decreases high - low,
    {
        let mid: u128 = low + (high - low) / 2;
        assert(mid <= mid * mid <= 0x800_0000_0000_0000_0000_0000_0000) by (nonlinear_arith)
            requires
                1 <= mid <= 0x20_0000_0000_0001,
        ;
        if mid * mid - mid < n {
            low = mid;
        } else {
            high = mid;
        }
    }
    proof {
        assert(high * high - high == low * low + low) by (nonlinear_arith)
            requires
                high == low + 1,
        ;
        lemma_root_found(n as int);
        lemma_one_root(n as int, low as int, whole_root(n as int));
    }
    low
}

proof fn lemma_two_power(b: int)
    requires
        two_power(b),
    ensures
        b >= 1,
{
}

/// No number has two roots.
proof fn lemma_one_root(n: int, a: int, b: int)
    requires
        is_root(n, a),
        is_root(n, b),
    ensures
        a == b,
{
    assert(a == b) by (nonlinear_arith)
        requires
            a >= 1,
            b >= 1,
            a * a - a < n <= a * a + a,
            b * b - b < n <= b * b + b,
    ;
}

proof fn lemma_nearest(n: int, d: int)
    requires
        n >= 0,
        d > 0,
    ensures
        nearest(n, d) >= 0,
        2 * (nearest(n, d) * d) <= 2 * n + d,
        2 * (nearest(n, d) * d) >= 2 * n - d,
{
    vstd::arithmetic::div_mod::lemma_fundamental_div_mod(n, d);
    vstd::arithmetic::div_mod::lemma_div_pos_is_pos(n, d);
    let q = n / d;
    let r = n % d;
    assert((q + 1) * d == q * d + d) by (nonlinear_arith);
    assert(d * q == q * d) by (nonlinear_arith);
}

proof fn lemma_unit(n: int, d: int)
    requires
        d >= 1,
        d * BITS_52 <= n || d == 1,
    ensures
        unit(n, d) >= 1,
        unit(n, d) * BITS_52 <= n || unit(n, d) == 1,
    decreases n - d,
{
    if n >= d * BITS_53 {
        lemma_unit(n, 2 * d);
    }
}

/// 2 to the power of 30: how far rounding goes, at most, is one part in as many.
pub const NEAR: u64 = 0x4000_0000;

/// Rounding to 53 bits changes a number little.
pub proof fn lemma_rounded(n: int)
    requires
        n >= 0,
    ensures
        rounded(n) >= 0,
        rounded(n) * NEAR <= n * (NEAR + 1),
        n * NEAR <= rounded(n) * (NEAR + 1),
        rounded(n) <= 2 * n,
{
    let u = unit(n, 1);
    lemma_unit(n, 1);
    lemma_nearest(n, u);
    assert(nearest(n, u) * u >= 0) by (nonlinear_arith)
        requires
            nearest(n, u) >= 0,
            u >= 1,
    ;
    if u == 1 {
        assert(nearest(n, 1) == n);
        assert(n * 1 == n);
    }
}

/// A rounded quotient is little more than the quotient.
pub proof fn lemma_quotient(n: int, d: int)
    requires
        n >= 1,
        d >= 1,
    ensures
        ({
            let q = quotient(n, d);
            &&& q.num >= 1
            &&& q.den >= 1
            &&& q.num * d * NEAR <= n * q.den * (NEAR + 1)
        }),
{
    lemma_doubled(n, d, n, 1);
    let b = doubled(n, d, 1);
    let m = nearest(n * b, d);
    lemma_nearest(n * b, d);
    assert(m >= 1) by (nonlinear_arith)
        requires
            n * b >= d * BITS_52,
            2 * (m * d) >= 2 * (n * b) - d,
            d >= 1,
    ;
    let p = m * d;
    let q = n * b;
    assert(2 * p <= 2 * q + d);
    assert(d * BITS_52 <= q);
    assert(p * 0x4000_0000 <= q * 0x4000_0001);
}

proof fn lemma_doubled(n: int, d: int, x: int, b: int)
    requires
        n >= 1,
        d >= 1,
        b >= 1,
        x == n * b,
    ensures
        doubled(x, d, b) >= 1,
        n * doubled(x, d, b) >= d * BITS_52,
    decreases
        (if x < d * BITS_52 {
            d * BITS_52 - x
        } else {
            0
        }),
{
    assert(x >= 1) by (nonlinear_arith)
        requires
            x == n * b,
            n >= 1,
            b >= 1,
    ;
    if x < d * BITS_52 {
        assert(2 * x == n * (2 * b)) by (nonlinear_arith)
            requires
                x == n * b,
        ;
        lemma_doubled(n, d, 2 * x, 2 * b);
    }
}

proof fn lemma_widened(m: int, g: int, x: int, c: int)
    requires
        m >= 1,
        c >= 1,
        x == m * c * c,
    ensures
        widened(x, g, c) >= 1,
        m * widened(x, g, c) * widened(x, g, c) >= g,
    decreases
        (if x < g {
            g - x
        } else {
            0
        }),
{
    assert(x >= 1) by (nonlinear_arith)
        requires
            x == m * c * c,
            m >= 1,
            c >= 1,
    ;
    if x < g {
        assert(4 * x == m * (2 * c) * (2 * c)) by (nonlinear_arith)
            requires
                x == m * c * c,
        ;
        lemma_widened(m, g, 4 * x, 2 * c);
    }
}

/// Every number has a root.
proof fn lemma_root_found(n: int)
    requires
        n >= 1,
    ensures
        is_root(n, whole_root(n)),
    decreases n,
{
    if n == 1 {
        assert(is_root(1, 1));
    } else {
        lemma_root_found(n - 1);
        let r = whole_root(n - 1);
        if n > r * r + r {
            let q = r + 1;
            assert(q * q - q == r * r + r && q * q + q >= n) by (nonlinear_arith)
                requires
                    q == r + 1,
                    r >= 1,
                    n == r * r + r + 1,
            ;
            assert(is_root(n, q));
        } else {
            assert(is_root(n, r));
        }
    }
}

/// What a root is, squared, is little more than the number.
pub proof fn lemma_root(f: Fraction)
    requires
        f.num >= 1,
        f.den >= 1,
    ensures
        ({
            let r = root(f);
            &&& r.num >= 1
            &&& r.den >= 1
            &&& r.num * r.num * f.den * NEAR <= f.num * r.den * r.den * (NEAR + 1)
        }),
{
    let g = BITS_104 * f.den;
    assert(f.num * 1 * 1 == f.num);
    lemma_widened(f.num, g, f.num, 1);
    let c = widened(f.num, g, 1);
    let x = f.num * c * c;
    let n = x / f.den;
    vstd::arithmetic::div_mod::lemma_fundamental_div_mod(x, f.den);
    assert(n >= BITS_104) by {
        vstd::arithmetic::div_mod::lemma_div_is_ordered(g, x, f.den);
        vstd::arithmetic::div_mod::lemma_div_by_multiple(BITS_104 as int, f.den);
    }
    lemma_root_found(n);
    let r = whole_root(n);
    assert(r >= NEAR) by (nonlinear_arith)
        requires
            r * r + r >= n,
            n >= BITS_104,
            r >= 1,
            NEAR == 0x4000_0000,
            BITS_104 == 0x100_0000_0000_0000_0000_0000_0000,
    ;
    assert((r - 1) * NEAR <= n) by (nonlinear_arith)
        requires
            r * r - r < n,
            r >= NEAR,
            NEAR == 0x4000_0000,
    ;
    assert(r * r * NEAR <= n * (NEAR + 1)) by {
        assert(r * r <= n + (r - 1));
        assert(r * r * NEAR <= (n + (r - 1)) * NEAR);
    }
    let s = r * r * NEAR;
    assert(s * f.den <= (n * (NEAR + 1)) * f.den) by (nonlinear_arith)
        requires
            s <= n * (NEAR + 1),
            f.den >= 1,
    ;
    assert(r * r * f.den * NEAR == s * f.den) by (nonlinear_arith)
        requires
            s == r * r * NEAR,
    ;
    assert(n * f.den <= x) by (nonlinear_arith)
        requires
            x == f.den * n + x % f.den,
            x % f.den >= 0,
    ;
    assert((n * (NEAR + 1)) * f.den == (n * f.den) * (NEAR + 1)) by (nonlinear_arith);
}

/// What a scale makes of a length is little more than the length times the scale.
pub proof fn lemma_scaled(x: int, f: Fraction)
    requires
        x >= 0,
        f.num >= 1,
        f.den >= 1,
    ensures
        scaled(x, f) >= 0,
        scaled(x, f) * f.den * NEAR <= x * f.num * (NEAR + 1),
{
    let p = x * f.num;
    assert(p >= 0) by (nonlinear_arith)
        requires
            p == x * f.num,
            x >= 0,
            f.num >= 1,
    ;
    lemma_rounded(p);
    vstd::arithmetic::div_mod::lemma_fundamental_div_mod(rounded(p), f.den);
    vstd::arithmetic::div_mod::lemma_div_pos_is_pos(rounded(p), f.den);
    let y = scaled(x, f);
    assert(y * f.den <= rounded(p)) by (nonlinear_arith)
        requires
            rounded(p) == f.den * y + rounded(p) % f.den,
            rounded(p) % f.den >= 0,
    ;
}

/// A rounded quotient is little less than the quotient.
pub proof fn lemma_quotient_is_near(n: int, d: int)
    requires
        n >= 1,
        d >= 1,
    ensures
        n * quotient(n, d).den * NEAR <= quotient(n, d).num * d * (NEAR + 1),
{
    lemma_doubled(n, d, n, 1);
    let b = doubled(n, d, 1);
    let m = nearest(n * b, d);
    assert(n * b >= 0) by (nonlinear_arith)
        requires
            n >= 1,
            b >= 1,
    ;
    lemma_nearest(n * b, d);
    let p = m * d;
    let q = n * b;
    assert(2 * p >= 2 * q - d);
    assert(d * BITS_52 <= q);
    assert(q * 0x4000_0000 <= p * 0x4000_0001);
}

/// What a root is, squared, is little less than the number.
pub proof fn lemma_root_is_near(f: Fraction)
    requires
        f.num >= 1,
        f.den >= 1,
    ensures
        f.num * root(f).den * root(f).den * NEAR <= root(f).num * root(f).num * f.den * (NEAR + 1),
{
    let g = BITS_104 * f.den;
    assert(f.num * 1 * 1 == f.num);
    lemma_widened(f.num, g, f.num, 1);
    let c = widened(f.num, g, 1);
    let x = f.num * c * c;
    let n = x / f.den;
    vstd::arithmetic::div_mod::lemma_fundamental_div_mod(x, f.den);
    assert(n >= BITS_104) by {
        vstd::arithmetic::div_mod::lemma_div_is_ordered(g, x, f.den);
        vstd::arithmetic::div_mod::lemma_div_by_multiple(BITS_104 as int, f.den);
    }
    lemma_root_found(n);
    let r = whole_root(n);
    assert(r >= 0x8000_0000) by (nonlinear_arith)
        requires
            r * r + r >= n,
            n >= BITS_104,
            r >= 1,
            BITS_104 == 0x100_0000_0000_0000_0000_0000_0000,
    ;
    assert((r + 1) * NEAR <= r * r) by (nonlinear_arith)
        requires
            r >= 0x8000_0000,
            NEAR == 0x4000_0000,
    ;
    let s = r * r;
    let d = f.den;
    assert(x <= (s + r + 1) * d) by (nonlinear_arith)
        requires
            x == d * n + x % d,
            x % d < d,
            n <= s + r,
            d >= 1,
    ;
    assert((s + r + 1) * NEAR <= s * (NEAR + 1));
    let t = (s + r + 1) * NEAR;
    assert(t * d <= (s * (NEAR + 1)) * d) by (nonlinear_arith)
        requires
            t <= s * (NEAR + 1),
            d >= 1,
    ;
    assert(x * NEAR <= t * d) by (nonlinear_arith)
        requires
            x <= (s + r + 1) * d,
            t == (s + r + 1) * NEAR,
            NEAR == 0x4000_0000,
    ;
    assert((s * (NEAR + 1)) * d == s * d * (NEAR + 1)) by (nonlinear_arith);
}

/// What a scale makes of a length, and one more, is little less than the length times the scale.
pub proof fn lemma_scaled_is_near(x: int, f: Fraction)
    requires
        x >= 0,
        f.num >= 1,
        f.den >= 1,
    ensures
        x * f.num * NEAR < (scaled(x, f) + 1) * f.den * (NEAR + 1),
{
    let p = x * f.num;
    assert(p >= 0) by (nonlinear_arith)
        requires
            p == x * f.num,
            x >= 0,
            f.num >= 1,
    ;
    lemma_rounded(p);
    vstd::arithmetic::div_mod::lemma_fundamental_div_mod(rounded(p), f.den);
    let y = scaled(x, f);
    let z = (y + 1) * f.den;
    assert(rounded(p) < z) by (nonlinear_arith)
        requires
            rounded(p) == f.den * y + rounded(p) % f.den,
            rounded(p) % f.den < f.den,
            z == (y + 1) * f.den,
    ;
}

} // verus!
