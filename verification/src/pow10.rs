use vstd::prelude::*;

verus! {

/// `10` raised to the power `e`.
pub open spec fn pow10(e: nat) -> nat
    decreases e,
{
    if e == 0 {
        1
    } else {
        10 * pow10((e - 1) as nat)
    }
}

/// `pow10` grows with its exponent.
pub proof fn lemma_pow10_monotone(a: nat, b: nat)
    requires
        a <= b,
    ensures
        1 <= pow10(a) <= pow10(b),
    decreases b,
{
    if b > a {
        lemma_pow10_monotone(a, (b - 1) as nat);
    } else if a > 0 {
        lemma_pow10_monotone((a - 1) as nat, (a - 1) as nat);
    }
}

/// Powers of ten multiply by adding their exponents.
pub proof fn lemma_pow10_add(m: nat, n: nat)
    ensures
        pow10(m + n) == pow10(m) * pow10(n),
    decreases n,
{
    if n > 0 {
        lemma_pow10_add(m, (n - 1) as nat);
        let p = pow10(m);
        let q = pow10((n - 1) as nat);
        assert(pow10(m + n) == 10 * pow10((m + n - 1) as nat));
        assert(pow10(n) == 10 * q);
        assert((m + n - 1) as nat == m + (n - 1) as nat);
        assert(10 * (p * q) == p * (10 * q)) by (nonlinear_arith);
    } else {
        assert(pow10(0) == 1);
        assert(m + n == m);
    }
}

/// `10^20` exceeds every `u64`.
pub proof fn lemma_pow10_20()
    ensures
        pow10(20) == 100000000000000000000nat,
{
    reveal_with_fuel(pow10, 21);
}

/// Computes `10^e`, the value of `10u64.pow(e)`; defined for `e <= 19`, the
/// largest power of ten below `u64::MAX`.
pub fn ten_to_the(e: u32) -> (r: u64)
    requires
        e <= 19,
    ensures
        r == pow10(e as nat),
{
    proof {
        reveal_with_fuel(pow10, 20);
        assert(pow10(19) == 10000000000000000000nat);
    }
    let mut acc: u64 = 1;
    let mut i: u32 = 0;
    while i < e
        invariant
            i <= e <= 19,
            acc == pow10(i as nat),
            pow10(19) == 10000000000000000000nat,
        decreases e - i,
    {
        proof {
            lemma_pow10_monotone((i + 1) as nat, 19);
        }
        acc = acc * 10;
        i = i + 1;
    }
    acc
}

} // verus!
