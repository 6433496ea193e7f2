//! Fibonacci kernels: the doubly recursive definition on `u64` and on `i32`,
//! and the accumulator-passing form.

use vstd::prelude::*;
use vstd::arithmetic::div_mod::{lemma_add_mod_noop_right, lemma_mul_mod_noop_left, lemma_small_mod};

verus! {

/// The Fibonacci numbers 0, 1, 1, 2, 3, 5, 8, ...
pub open spec fn fib_spec(n: nat) -> nat
    decreases n,
{
    if n < 2 {
        n
    } else {
        fib_spec((n - 1) as nat) + fib_spec((n - 2) as nat)
    }
}

/// The first accumulator of the tail-recursive form after `n` steps from the
/// pair `(a, b)`, where one step takes `(a, b)` to `(b, a + b)`. The second
/// accumulator after `n` steps is the first one after `n + 1`.
pub open spec fn fib_tail_spec(n: nat, a: nat, b: nat) -> nat {
    if n == 0 {
        a
    } else {
        a * fib_spec((n - 1) as nat) + b * fib_spec(n)
    }
}

/// The sequence never decreases.
pub proof fn lemma_fib_monotonic(i: nat, j: nat)
    requires
        i <= j,
    ensures
        fib_spec(i) <= fib_spec(j),
    decreases j,
{
    if i < j {
        lemma_fib_monotonic(i, (j - 1) as nat);
    }
}

/// The addition law: `F(m + n) = F(m) F(n + 1) + F(m - 1) F(n)` for `m >= 1`.
pub proof fn lemma_fib_addition(m: nat, n: nat)
    requires
        m >= 1,
    ensures
        fib_spec(m + n) == fib_spec(m) * fib_spec(n + 1) + fib_spec((m - 1) as nat) * fib_spec(n),
    decreases n,
{
    let fm = fib_spec(m) as int;
    let fm1 = fib_spec((m - 1) as nat) as int;
    if n == 0 {
        assert(fm * 1 + fm1 * 0 == fm) by (nonlinear_arith);
    } else if n == 1 {
        assert(fib_spec(2) == 1);
        assert(fm * 1 + fm1 * 1 == fm + fm1) by (nonlinear_arith);
    } else {
        lemma_fib_addition(m, (n - 1) as nat);
        lemma_fib_addition(m, (n - 2) as nat);
        let x = fib_spec(n) as int;
        let y = fib_spec((n - 1) as nat) as int;
        let z = fib_spec((n - 2) as nat) as int;
        assert(fm * (x + y) + fm1 * (y + z) == (fm * x + fm1 * y) + (fm * y + fm1 * z))
            by (nonlinear_arith);
    }
}

/// The doubling identities: from `a = F(k)` and `b = F(k + 1)` follow
/// `F(2k) = a (2b - a)` and `F(2k + 1) = a^2 + b^2`.
pub proof fn lemma_fib_doubling(k: nat, a: nat, b: nat)
    requires
        fib_spec(k) == a,
        fib_spec(k + 1) == b,
    ensures
        fib_spec(2 * k) == a * (2 * b - a),
        fib_spec(2 * k + 1) == a * a + b * b,
{
    lemma_fib_addition(k + 1, k);
    if k == 0 {
        assert(a * (2 * b - a) == 0) by (nonlinear_arith)
            requires
                a == 0,
        ;
    } else {
        lemma_fib_addition(k, k);
        let c = fib_spec((k - 1) as nat) as int;
        assert(b == a + c);
        assert(a * b + c * a == a * (2 * b - a)) by (nonlinear_arith)
            requires
                b == a + c,
        ;
    }
}

/// The last Fibonacci numbers that fit in an `i32` and in a `u64`, and the
/// first ones that do not.
pub proof fn lemma_fib_limits()
    ensures
        fib_spec(46) == 1836311903,
        fib_spec(47) == 2971215073,
        fib_spec(93) == 12200160415121876738,
        fib_spec(94) == 19740274219868223167,
{
    reveal_with_fuel(fib_spec, 3);
    assert(fib_spec(2) == 1);
    lemma_fib_doubling(1, 1, 1);
    assert(fib_spec(3) == 2);
    lemma_fib_doubling(2, 1, 2);
    assert(fib_spec(5) == 5);
    assert(fib_spec(6) == 8);
    lemma_fib_doubling(5, 5, 8);
    assert(fib_spec(11) == 89);
    assert(fib_spec(12) == 144);
    lemma_fib_doubling(11, 89, 144);
    assert(fib_spec(23) == 28657);
    assert(fib_spec(24) == 46368);
    lemma_fib_doubling(23, 28657, 46368);
    assert(fib_spec(46) == 1836311903);
    assert(fib_spec(47) == 2971215073);
    lemma_fib_doubling(46, 1836311903, 2971215073);
    assert(fib_spec(92) == 7540113804746346429);
    assert(fib_spec(93) == 12200160415121876738);
}

/// `F(n)` fits in a `u64` exactly when `n <= 93`.
pub proof fn lemma_fib_fits_u64(n: nat)
    ensures
        n <= 93 <==> fib_spec(n) <= u64::MAX,
{
    lemma_fib_limits();
    if n <= 93 {
        lemma_fib_monotonic(n, 93);
    } else {
        lemma_fib_monotonic(94, n);
    }
}

/// `F(n)` fits in an `i32` exactly when `n <= 46`.
pub proof fn lemma_fib_fits_i32(n: nat)
    ensures
        n <= 46 <==> fib_spec(n) <= i32::MAX,
{
    lemma_fib_limits();
    if n <= 46 {
        lemma_fib_monotonic(n, 46);
    } else {
        lemma_fib_monotonic(47, n);
    }
}

/// Seeded with `(0, 1)` the accumulator form yields the Fibonacci numbers.
pub proof fn lemma_fib_tail_seeded(n: nat)
    ensures
        fib_tail_spec(n, 0, 1) == fib_spec(n),
{
    if n > 0 {
        let p = fib_spec((n - 1) as nat) as int;
        let q = fib_spec(n) as int;
        assert(0 * p + 1 * q == q) by (nonlinear_arith);
    }
}

/// One step of the accumulator form: `n` steps from `(a, b)` are `n - 1`
/// steps from `(b, a + b)`.
pub proof fn lemma_fib_tail_step(n: nat, a: nat, b: nat)
    requires
        n >= 1,
    ensures
        fib_tail_spec(n, a, b) == fib_tail_spec((n - 1) as nat, b, a + b),
{
    if n >= 2 {
        let p = fib_spec((n - 2) as nat) as int;
        let q = fib_spec((n - 1) as nat) as int;
        assert(a * q + b * (q + p) == b * p + (a + b) * q) by (nonlinear_arith);
    } else {
        assert(a * 0 + b * 1 == b) by (nonlinear_arith);
    }
}

/// The `n`-th Fibonacci number by the doubly recursive definition.
pub fn fib(n: u64) -> (r: u64)
    requires
        n <= 93,
    ensures
        r == fib_spec(n as nat),
    decreases n,
{
    if n <= 1 {
        n
    } else {
        proof {
            lemma_fib_fits_u64(n as nat);
        }
        fib(n - 1) + fib(n - 2)
    }
}

/// The doubly recursive definition on signed integers: an argument below two,
/// negative ones included, is returned as it is.
pub fn fibonacci(n: i32) -> (r: i32)
    requires
        n <= 46,
    ensures
        n <= 1 ==> r == n,
        n >= 2 ==> r == fib_spec(n as nat),
    decreases n,
{
    if n <= 1 {
        return n;
    }
    proof {
        lemma_fib_fits_i32(n as nat);
        // below two the argument is its own Fibonacci number
        assert(fib_spec(0) == 0 && fib_spec(1) == 1);
    }
    fibonacci(n - 1) + fibonacci(n - 2)
}

/// A wrapped sum in place of the true one changes no later accumulator
/// modulo `2^64`: with `sum` congruent to `a + b`, the `n - 1` steps from
/// `(b, sum)` end where the `n` steps from `(a, b)` end.
proof fn lemma_fib_tail_wrapped_step(n: nat, a: nat, b: nat, sum: nat)
    requires
        n >= 1,
        sum == (a + b) % 0x1_0000_0000_0000_0000,
    ensures
        fib_tail_spec((n - 1) as nat, b, sum) % 0x1_0000_0000_0000_0000 == fib_tail_spec(n, a, b)
            % 0x1_0000_0000_0000_0000,
{
    let m: int = 0x1_0000_0000_0000_0000;
    lemma_fib_tail_step(n, a, b);
    if n >= 2 {
        let p = (b * fib_spec((n - 2) as nat)) as int;
        let q = fib_spec((n - 1) as nat) as int;
        let true_sum = (a + b) as int;
        lemma_mul_mod_noop_left(true_sum, q, m);
        lemma_add_mod_noop_right(p, sum * q, m);
        lemma_add_mod_noop_right(p, true_sum * q, m);
    }
}

/// The accumulator-passing form: `n` times takes `(a, b)` to `(b, a + b)` and
/// returns the first of the pair. The sums wrap round at `2^64`, so the result
/// is the first accumulator modulo `2^64`, and the accumulator itself where
/// that fits in a `u64`.
pub fn fib_tail(n: u64, a: u64, b: u64) -> (r: u64)
    ensures
        r == fib_tail_spec(n as nat, a as nat, b as nat) % 0x1_0000_0000_0000_0000,
        fib_tail_spec(n as nat, a as nat, b as nat) <= u64::MAX ==> r == fib_tail_spec(
            n as nat,
            a as nat,
            b as nat,
        ),
    decreases n,
{
    proof {
        if fib_tail_spec(n as nat, a as nat, b as nat) <= u64::MAX {
            lemma_small_mod(fib_tail_spec(n as nat, a as nat, b as nat), 0x1_0000_0000_0000_0000);
        }
    }
    if n == 0 {
        a
    } else {
        let sum: u64 = a.wrapping_add(b);
        proof {
            lemma_fib_tail_wrapped_step(n as nat, a as nat, b as nat, sum as nat);
        }
        fib_tail(n - 1, b, sum)
    }
}

} // verus!
