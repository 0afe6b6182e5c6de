//! Small verified numeric routines: an even-doubling aggregation over a
//! slice and the Fibonacci function in recursive and iterative form.

use vstd::prelude::*;

verus! {

/// The sum of `2 * x` over the even elements of `s`, as an unbounded
/// integer.
pub open spec fn process_sum(s: Seq<i32>) -> int
    decreases s.len(),
{
    if s.len() == 0 {
        0
    } else {
        process_sum(s.drop_last()) + if (s.last() as int) % 2 == 0 {
            2 * (s.last() as int)
        } else {
            0int
        }
    }
}

/// Doubles every even element of `data` and sums the results. The caller
/// keeps every partial sum inside `i32` range, as the result type demands.
pub fn process_data(data: &[i32]) -> (r: i32)
    requires
        forall|i: int|
            0 <= i <= data@.len() ==> i32::MIN <= #[trigger] process_sum(data@.take(i))
                <= i32::MAX,
    ensures
        r == process_sum(data@),
{
    let mut sum: i64 = 0;
    let mut i: usize = 0;
    proof {
        assert(data@.take(0) =~= Seq::<i32>::empty());
    }
    while i < data.len()
        invariant
            i <= data@.len(),
            sum == process_sum(data@.take(i as int)),
            forall|j: int|
                0 <= j <= data@.len() ==> i32::MIN <= #[trigger] process_sum(data@.take(j))
                    <= i32::MAX,
        decreases data@.len() - i,
    {
        let x = data[i];
        proof {
            assert(data@.take(i + 1).drop_last() =~= data@.take(i as int));
            assert(data@.take(i + 1).last() == data@[i as int]);
        }
        if x % 2 == 0 {
            sum = sum + 2 * (x as i64);
        }
        i += 1;
    }
    proof {
        assert(data@.take(data@.len() as int) =~= data@);
    }
    sum as i32
}

/// The sum of the squares of the elements of `s`, as an unbounded
/// integer.
pub open spec fn square_sum(s: Seq<u64>) -> int
    decreases s.len(),
{
    if s.len() == 0 {
        0
    } else {
        square_sum(s.drop_last()) + (s.last() as int) * (s.last() as int)
    }
}

/// A sum of squares never goes negative.
pub proof fn lemma_square_sum_nonnegative(s: Seq<u64>)
    ensures
        square_sum(s) >= 0,
    decreases s.len(),
{
    if s.len() > 0 {
        lemma_square_sum_nonnegative(s.drop_last());
        assert((s.last() as int) * (s.last() as int) >= 0) by (nonlinear_arith);
    }
}

/// Sums the squares of `numbers`. The caller keeps every partial sum
/// inside `u64` range, as the result type demands; sequential or spread
/// over workers, the result is this one.
pub fn sum_of_squares(numbers: &[u64]) -> (r: u64)
    requires
        forall|i: int|
            0 <= i <= numbers@.len() ==> #[trigger] square_sum(numbers@.take(i)) <= u64::MAX,
    ensures
        r == square_sum(numbers@),
{
    let mut sum: u64 = 0;
    let mut i: usize = 0;
    proof {
        assert(numbers@.take(0) =~= Seq::<u64>::empty());
    }
    while i < numbers.len()
        invariant
            i <= numbers@.len(),
            sum == square_sum(numbers@.take(i as int)),
            forall|j: int|
                0 <= j <= numbers@.len() ==> #[trigger] square_sum(numbers@.take(j))
                    <= u64::MAX,
        decreases numbers@.len() - i,
    {
        let x = numbers[i];
        proof {
            assert(numbers@.take(i + 1).drop_last() =~= numbers@.take(i as int));
            assert(numbers@.take(i + 1).last() == numbers@[i as int]);
            lemma_square_sum_nonnegative(numbers@.take(i as int));
            assert((x as int) * (x as int) <= square_sum(numbers@.take(i + 1)));
        }
        sum = sum + x * x;
        i += 1;
    }
    proof {
        assert(numbers@.take(numbers@.len() as int) =~= numbers@);
    }
    sum
}

/// The Fibonacci function.
pub open spec fn fib(n: nat) -> nat
    decreases n,
{
    if n == 0 {
        0
    } else if n == 1 {
        1
    } else {
        fib((n - 1) as nat) + fib((n - 2) as nat)
    }
}

/// Fibonacci grows monotonically, so every intermediate value of a
/// computation of `fib(n)` fits wherever `fib(n)` fits.
pub proof fn lemma_fib_monotonic(i: nat, j: nat)
    requires
        i <= j,
    ensures
        fib(i) <= fib(j),
    decreases j,
{
    if i < j {
        lemma_fib_monotonic(i, (j - 1) as nat);
    }
}

/// Fibonacci by direct recursion.
pub fn fibonacci(n: u64) -> (r: u64)
    requires
        fib(n as nat) <= u64::MAX,
    ensures
        r == fib(n as nat),
    decreases n,
{
    match n {
        0 => 0,
        1 => 1,
        _ => {
            proof {
                lemma_fib_monotonic((n - 1) as nat, n as nat);
                lemma_fib_monotonic((n - 2) as nat, n as nat);
            }
            fibonacci(n - 1) + fibonacci(n - 2)
        },
    }
}

/// Fibonacci by iteration: same function, linear time.
pub fn fibonacci_iterative(n: u64) -> (r: u64)
    requires
        fib(n as nat) <= u64::MAX,
    ensures
        r == fib(n as nat),
{
    if n == 0 {
        return 0;
    }
    if n == 1 {
        return 1;
    }
    let mut prev: u64 = 0;
    let mut curr: u64 = 1;
    let mut i: u64 = 1;
    while i < n
        invariant
            1 <= i <= n,
            prev == fib((i - 1) as nat),
            curr == fib(i as nat),
            fib(n as nat) <= u64::MAX,
        decreases n - i,
    {
        proof {
            lemma_fib_monotonic((i + 1) as nat, n as nat);
        }
        let next = prev + curr;
        prev = curr;
        curr = next;
        i += 1;
    }
    curr
}

} // verus!
