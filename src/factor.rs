use std::collections::VecDeque;
use vstd::arithmetic::div_mod::{lemma_mod_multiples_basic, lemma_mul_mod_noop_left};
use vstd::prelude::*;

use crate::parse::{all_digits, digits_value, parse_unsigned, unsigned_digits};

verus! {

/// `num` is prime: at least 2, and no `d` with `2 <= d < num` divides it.
pub open spec fn prime(num: nat) -> bool {
    num >= 2 && forall|d: nat| 2 <= d < num ==> #[trigger] (num % d) != 0
}

/// `d` divides `n` and `n` divides `m`, so `d` divides `m`.
proof fn lemma_divides_trans(d: nat, n: nat, m: nat)
    requires
        d > 0,
        n > 0,
        n % d == 0,
        m % n == 0,
    ensures
        m % d == 0,
{
    let a = n / d;
    let q = m / n;
    assert(a * d == n) by (nonlinear_arith)
        requires n % d == 0, a == n / d, d > 0;
    assert(q * n == m) by (nonlinear_arith)
        requires m % n == 0, q == m / n, n > 0;
    assert(m == (q * a) * d) by (nonlinear_arith)
        requires a * d == n, q * n == m;
    lemma_mod_multiples_basic((q * a) as int, d as int);
}

/// Decides whether `num` is prime by trial division up to its square root.
pub fn is_prime(num: u32) -> (r: bool)
    ensures
        r == prime(num as nat),
{
    if num <= 1 {
        return false;
    }
    let n = num as u64;
    let mut factor: u64 = 2;
    loop
        invariant
            2 <= factor <= 65536,
            n == num as u64,
            n > 1,
            n <= u32::MAX,
            forall|f: nat| 2 <= f < factor ==> #[trigger] (num as nat % f) != 0,
        ensures
            2 <= factor,
            n == num as u64,
            factor * factor > n,
            forall|f: nat| 2 <= f < factor ==> #[trigger] (num as nat % f) != 0,
        decreases 65536 - factor,
    {
        assert(factor * factor <= 65536 * 65536) by (nonlinear_arith)
            requires factor <= 65536;
        if factor * factor > n {
            break;
        }
        assert(factor < 65536 && factor < n) by (nonlinear_arith)
            requires factor * factor <= n, factor >= 2, n <= u32::MAX;
        if n % factor == 0 {
            assert((num as nat) % (factor as nat) == 0);
            return false;
        }
        factor = factor + 1;
    }
    assert forall|d: nat| 2 <= d < num as nat implies #[trigger] ((num as nat) % d) != 0 by {
        let m = num as nat;
        if d >= factor && m % d == 0 {
            let k = m / d;
            assert(k * d == m) by (nonlinear_arith)
                requires m % d == 0, k == m / d, d > 0;
            assert(2 <= k < factor) by (nonlinear_arith)
                requires k * d == m, d < m, d >= factor, factor * factor > m, d >= 2;
            lemma_mod_multiples_basic(d as int, k as int);
            assert((d as int) * (k as int) == m as int) by (nonlinear_arith)
                requires k * d == m;
            assert(m % k == 0);
        }
    }
    true
}

/// Takes the next number off the shared work queue, if any is left.
pub fn get_num_safe(nums: &mut VecDeque<u32>) -> (r: Option<u32>)
    ensures
        old(nums)@.len() == 0 ==> r is None && final(nums)@ == old(nums)@,
        old(nums)@.len() > 0 ==> r == Some(old(nums)@[0]) && final(nums)@ == old(
            nums,
        )@.drop_first(),
{
    nums.pop_front()
}

/// The product of the numbers in `s`.
pub open spec fn product(s: Seq<u32>) -> nat
    decreases s.len(),
{
    if s.len() == 0 {
        1
    } else {
        product(s.drop_last()) * s.last() as nat
    }
}

/// The factors that the farm prints for `num`: `num` alone when it is 1 or
/// prime, else its prime factors in ascending order, each as often as it
/// divides `num` (none for 0).
pub fn factor_list(num: u32) -> (r: Vec<u32>)
    ensures
        num == 1 || prime(num as nat) ==> r@ == seq![num],
        num >= 2 && !prime(num as nat) ==> {
            &&& product(r@) == num as nat
            &&& forall|i: int| 0 <= i < r@.len() ==> prime(#[trigger] r@[i] as nat)
            &&& forall|i: int, j: int| 0 <= i < j < r@.len() ==> r@[i] <= r@[j]
        },
        num == 0 ==> r@.len() == 0,
{
    if num == 1 || is_prime(num) {
        return vec![num];
    }
    let mut factors: Vec<u32> = Vec::new();
    if num < 2 {
        return factors;
    }
    let mut curr_num: u32 = num;
    let mut factor: u32 = 2;
    assert(product(factors@) == 1);
    while factor < num
        invariant
            2 <= factor <= num,
            !prime(num as nat),
            curr_num >= 1,
            product(factors@) * curr_num as nat == num as nat,
            factors@.len() == 0 ==> curr_num == num,
            factors@.len() > 0 ==> curr_num < num,
            forall|f: nat| 2 <= f < factor ==> #[trigger] (curr_num as nat % f) != 0,
            forall|i: int| 0 <= i < factors@.len() ==> #[trigger] factors@[i] < factor,
            forall|i: int| 0 <= i < factors@.len() ==> prime(#[trigger] factors@[i] as nat),
            forall|i: int, j: int| 0 <= i < j < factors@.len() ==> factors@[i] <= factors@[j],
        decreases num - factor,
    {
        while curr_num % factor == 0
            invariant
                2 <= factor < num,
                curr_num >= 1,
                product(factors@) * curr_num as nat == num as nat,
                factors@.len() == 0 ==> curr_num == num,
                factors@.len() > 0 ==> curr_num < num,
                forall|f: nat| 2 <= f < factor ==> #[trigger] (curr_num as nat % f) != 0,
                forall|i: int| 0 <= i < factors@.len() ==> #[trigger] factors@[i] <= factor,
                forall|i: int| 0 <= i < factors@.len() ==> prime(#[trigger] factors@[i] as nat),
                forall|i: int, j: int| 0 <= i < j < factors@.len() ==> factors@[i] <= factors@[j],
            decreases curr_num,
        {
            let ghost before = factors@;
            let q = curr_num / factor;
            assert(q * factor == curr_num) by (nonlinear_arith)
                requires curr_num % factor == 0, q == curr_num / factor, factor > 0;
            assert(q >= 1 && q < curr_num) by (nonlinear_arith)
                requires q * factor == curr_num, curr_num >= 1, factor >= 2;
            assert forall|f: nat| 2 <= f < factor implies #[trigger] (q as nat % f) != 0 by {
                if q as nat % f == 0 {
                    lemma_mul_mod_noop_left(q as int, factor as int, f as int);
                    assert((curr_num as nat) % f == 0);
                }
            }
            assert(prime(factor as nat)) by {
                assert forall|d: nat| 2 <= d < factor as nat implies #[trigger] ((
                factor as nat) % d) != 0 by {
                    if (factor as nat) % d == 0 {
                        lemma_divides_trans(d, factor as nat, curr_num as nat);
                    }
                }
            }
            factors.push(factor);
            assert(factors@.drop_last() =~= before);
            assert(product(factors@) * q as nat == num as nat) by (nonlinear_arith)
                requires
                    product(factors@) == product(before) * factor as nat,
                    product(before) * curr_num as nat == num as nat,
                    q * factor == curr_num,
            ;
            curr_num = q;
        }
        factor = factor + 1;
    }
    if curr_num == num {
        assert(prime(num as nat));
    }
    if curr_num > 1 {
        assert((curr_num as nat) % (curr_num as nat) == 0);
    }
    assert(curr_num == 1);
    factors
}

/// A command-line number for the farm: decimal, optional leading `+`,
/// within `u32`.
pub open spec fn number_arg(s: Seq<char>) -> Option<nat> {
    let d = unsigned_digits(s);
    if d.len() > 0 && all_digits(d, 10) && digits_value(d, 10) <= u32::MAX {
        Some(digits_value(d, 10))
    } else {
        None
    }
}

/// Reads the numbers to factor. Returns them all, or the index of the first
/// argument that is not one.
pub fn parse_numbers(args: &Vec<String>) -> (r: Result<Vec<u32>, usize>)
    ensures
        r matches Ok(v) ==> v@.len() == args@.len() && forall|i: int|
            0 <= i < args@.len() ==> number_arg(#[trigger] args@[i]@) == Some(v@[i] as nat),
        r matches Err(k) ==> k < args@.len() && number_arg(args@[k as int]@) is None && forall|
            i: int,
        | 0 <= i < k ==> (#[trigger] number_arg(args@[i]@)) is Some,
{
    let mut numbers: Vec<u32> = Vec::new();
    let mut i: usize = 0;
    while i < args.len()
        invariant
            i <= args@.len(),
            numbers@.len() == i,
            forall|j: int| 0 <= j < i ==> number_arg(#[trigger] args@[j]@) == Some(
                numbers@[j] as nat,
            ),
        decreases args.len() - i,
    {
        let arg = args[i].as_str();
        let n = arg.unicode_len();
        let parsed = parse_unsigned(arg, 0, 10);
        assert(arg@.subrange(0, n as int) =~= arg@);
        match parsed {
            Some(v) if v <= u32::MAX as usize => {
                numbers.push(v as u32);
            },
            _ => {
                assert(number_arg(args@[i as int]@) is None);
                return Err(i);
            },
        }
        i = i + 1;
    }
    Ok(numbers)
}

} // verus!
