//! Searching and summing integer slices.

use vstd::prelude::*;

verus! {

/// The first even element of `s`, scanning from the front; `None` when
/// no element is even.
pub open spec fn first_even(s: Seq<i32>) -> Option<i32>
    decreases s.len(),
{
    if s.len() == 0 {
        None
    } else if s[0] % 2 == 0 {
        Some(s[0])
    } else {
        first_even(s.skip(1))
    }
}

/// Returns the first even number of the slice, or `None` when every
/// element is odd.
pub fn find_first_even(numbers: &[i32]) -> (r: Option<i32>)
    ensures
        r == first_even(numbers@),
{
    let mut i: usize = 0;
    proof {
        assert(numbers@.skip(0) =~= numbers@);
    }
    while i < numbers.len()
        invariant
            i <= numbers@.len(),
            first_even(numbers@) == first_even(numbers@.skip(i as int)),
        decreases numbers@.len() - i,
    {
        let n: i32 = numbers[i];
        proof {
            assert(numbers@.skip(i as int)[0] == numbers@[i as int]);
        }
        if n % 2 == 0 {
            return Some(n);
        }
        proof {
            assert(numbers@.skip(i as int).skip(1) =~= numbers@.skip(i as int + 1));
        }
        i = i + 1;
    }
    None
}

/// The sum of the elements of `s`.
pub open spec fn seq_sum(s: Seq<i32>) -> int
    decreases s.len(),
{
    if s.len() == 0 {
        0
    } else {
        seq_sum(s.drop_last()) + s.last()
    }
}

/// Sums the elements of the slice. The length bound keeps the running
/// total inside the result type.
pub fn sum_all(numbers: &[i32]) -> (total: i64)
    requires
        numbers@.len() <= 0x1_0000_0000,
    ensures
        total == seq_sum(numbers@),
{
    let mut total: i64 = 0;
    let mut i: usize = 0;
    while i < numbers.len()
        invariant
            i <= numbers@.len(),
            numbers@.len() <= 0x1_0000_0000,
            total == seq_sum(numbers@.take(i as int)),
            -(i as int) * 0x8000_0000 <= total <= (i as int) * 0x8000_0000,
        decreases numbers@.len() - i,
    {
        let n: i32 = numbers[i];
        proof {
            assert(numbers@.take(i as int + 1).drop_last() =~= numbers@.take(i as int));
            assert(numbers@.take(i as int + 1).last() == numbers@[i as int]);
        }
        total = total + (n as i64);
        i = i + 1;
    }
    proof {
        assert(numbers@.take(numbers@.len() as int) =~= numbers@);
    }
    total
}

} // verus!
