//! Operations on borrowed numeric buffers.

use vstd::prelude::*;

verus! {

/// `v + 1` in 32-bit two's complement: `i32::MAX` wraps around to `i32::MIN`.
pub open spec fn wrapping_incr(v: i32) -> i32 {
    if v == i32::MAX {
        i32::MIN
    } else {
        (v + 1) as i32
    }
}

/// Adds one to every element of the buffer, in place.
///
/// The buffer keeps its length; an element that holds `i32::MAX` wraps around
/// to `i32::MIN`.
pub fn increment_array(numbers: &mut [i32])
    ensures
        final(numbers)@.len() == old(numbers)@.len(),
        forall|i: int|
            0 <= i < old(numbers)@.len() ==> #[trigger] final(numbers)@[i] == wrapping_incr(
                old(numbers)@[i],
            ),
        forall|i: int|
            0 <= i < old(numbers)@.len() && old(numbers)@[i] < i32::MAX
                ==> #[trigger] final(numbers)@[i] == old(numbers)@[i] + 1,
{
    let n: usize = numbers.len();
    let mut k: usize = 0;
    while k < n
        invariant
            k <= n,
            n == numbers@.len(),
            numbers@.len() == old(numbers)@.len(),
            forall|i: int| 0 <= i < k ==> #[trigger] numbers@[i] == wrapping_incr(old(numbers)@[i]),
            forall|i: int| k <= i < n ==> #[trigger] numbers@[i] == old(numbers)@[i],
        decreases n - k,
    {
        let v: i32 = numbers[k];
        numbers[k] = v.wrapping_add(1);
        k += 1;
    }
}

/// The sum of the even elements of `s`, as a mathematical integer.
pub open spec fn even_sum(s: Seq<u32>) -> int
    decreases s.len(),
{
    if s.len() == 0 {
        0
    } else {
        even_sum(s.drop_last()) + if s.last() % 2 == 0 {
            s.last() as int
        } else {
            0
        }
    }
}

/// Adds up the even elements of the buffer.
///
/// The sum is kept in 32 bits and wraps around on overflow, so the result is
/// the true sum modulo 2^32.
pub fn sum_of_even(numbers: &[u32]) -> (sum: u32)
    ensures
        sum == even_sum(numbers@) % 0x1_0000_0000,
{
    let n: usize = numbers.len();
    let mut sum: u32 = 0;
    let mut k: usize = 0;
    while k < n
        invariant
            k <= n,
            n == numbers@.len(),
            sum == even_sum(numbers@.take(k as int)) % 0x1_0000_0000,
        decreases n - k,
    {
        let v: u32 = numbers[k];
        proof {
            let before = numbers@.take(k as int);
            let after = numbers@.take(k + 1);
            assert(after.drop_last() =~= before);
            assert(after.last() == v);
            lemma_wrapping_step(even_sum(before), v);
        }
        if v % 2 == 0 {
            sum = sum.wrapping_add(v);
        }
        k += 1;
    }
    proof {
        assert(numbers@.take(n as int) =~= numbers@);
    }
    sum
}

/// Adding `v` to a sum that is kept modulo 2^32 and wrapping the result is the
/// same as adding `v` to the true sum and reducing afterwards.
proof fn lemma_wrapping_step(total: int, v: u32)
    ensures
        ((total % 0x1_0000_0000) as u32).wrapping_add(v) == (total + v) % 0x1_0000_0000,
{
    let m = 0x1_0000_0000int;
    let r = total % m;
    assert(0 <= r < m);
    assert((total + v) % m == (r + v) % m) by (nonlinear_arith)
        requires
            r == total % m,
            m == 0x1_0000_0000int,
    ;
    if r + v >= m {
        assert((r + v) % m == r + v - m) by (nonlinear_arith)
            requires
                m <= r + v < 2 * m,
                m > 0,
        ;
    } else {
        assert((r + v) % m == r + v) by (nonlinear_arith)
            requires
                0 <= r + v < m,
        ;
    }
}

} // verus!
