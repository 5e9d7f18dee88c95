use vstd::arithmetic::div_mod::lemma_fundamental_div_mod;
use vstd::prelude::*;

verus! {

/// Sum of two 32-bit integers; the sum must fit in an `i32`.
pub fn add(a: i32, b: i32) -> (r: i32)
    requires
        i32::MIN <= a + b <= i32::MAX,
    ensures
        r == a + b,
{
    a + b
}

/// Magnitude of `a`.
pub open spec fn abs(a: int) -> int {
    if a < 0 {
        -a
    } else {
        a
    }
}

/// Quotient of `a` by a positive `b` rounded toward zero, and its remainder,
/// as Rust's `/` and `%` give them, meet the defining equations of truncated division.
proof fn lemma_trunc_div_mod_pos(a: int, b: int)
    requires
        b > 0,
    ensures
        ({
            let q = if a >= 0 { a / b } else { -((-a) / b) };
            let m = if a >= 0 { a % b } else { -((-a) % b) };
            &&& a == b * q + m
            &&& abs(m) < b
            &&& b * abs(q) <= abs(a)
            &&& a >= 0 ==> m >= 0
            &&& a < 0 ==> m <= 0
        }),
{
    lemma_fundamental_div_mod(a, b);
    lemma_fundamental_div_mod(-a, b);
    if a >= 0 {
        assert(0 <= a / b <= a) by (nonlinear_arith)
            requires
                a >= 0,
                b > 0,
                a == b * (a / b) + (a % b),
                0 <= a % b < b,
        ;
    } else {
        let c = -a;
        assert(0 <= c / b <= c) by (nonlinear_arith)
            requires
                c >= 0,
                b > 0,
                c == b * (c / b) + (c % b),
                0 <= c % b < b,
        ;
        assert(b * (-(c / b)) == -(b * (c / b))) by (nonlinear_arith);
    }
}

/// Quotient and remainder of `dividend` by `divisor`, both rounded toward zero.
/// Division by zero, and `i32::MIN / -1`, whose quotient does not fit, are excluded.
pub fn divide_and_remainder(dividend: i32, divisor: i32) -> (r: (i32, i32))
    requires
        divisor != 0,
        !(dividend == i32::MIN && divisor == -1),
    ensures
        dividend == divisor * r.0 + r.1,
        abs(r.1 as int) < abs(divisor as int),
        dividend >= 0 ==> r.1 >= 0,
        dividend < 0 ==> r.1 <= 0,
{
    if divisor > 0 {
        let q: i32 = dividend / divisor;
        let m: i32 = dividend % divisor;
        proof {
            lemma_trunc_div_mod_pos(dividend as int, divisor as int);
        }
        (q, m)
    } else {
        // Divide by the magnitude of `divisor`, which fits in an `i64`, and flip the quotient.
        let d: i64 = dividend as i64;
        let n: i64 = -(divisor as i64);
        let q: i64 = d / n;
        let m: i64 = d % n;
        proof {
            lemma_trunc_div_mod_pos(d as int, n as int);
            assert((-n) * (-q) == n * q) by (nonlinear_arith);
            if n >= 2 {
                assert(abs(q as int) <= i32::MAX) by (nonlinear_arith)
                    requires
                        n >= 2,
                        n * abs(q as int) <= abs(d as int),
                        abs(d as int) <= 0x8000_0000,
                ;
            }
        }
        ((-q) as i32, m as i32)
    }
}

/// Whether `num` is divisible by two.
pub fn is_even(num: i32) -> (r: bool)
    ensures
        r == (num % 2 == 0),
{
    if num % 2 == 0 {
        return true;
    }
    false
}

/// Calls `f` on `a` and `b` and hands back what it returns.
pub fn apply_fn<F: Fn(i32, i32) -> i32>(f: F, a: i32, b: i32) -> (r: i32)
    requires
        f.requires((a, b)),
    ensures
        f.ensures((a, b), r),
{
    f(a, b)
}

/// A function that multiplies its argument by `factor`; it accepts every argument
/// whose product with `factor` fits in an `i32`.
pub fn create_multiplier(factor: i32) -> (m: impl Fn(i32) -> i32)
    ensures
        forall|x: i32| i32::MIN <= x * factor <= i32::MAX ==> #[trigger] m.requires((x,)),
        forall|x: i32, y: i32| #[trigger] m.ensures((x,), y) ==> y == x * factor,
{
    move |x: i32| -> (y: i32)
        requires
            i32::MIN <= x * factor <= i32::MAX,
        ensures
            y == x * factor,
        { x * factor }
}

} // verus!
