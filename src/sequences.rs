use vstd::prelude::*;

verus! {

/// The arithmetic sum of `s`.
pub open spec fn seq_sum(s: Seq<i32>) -> int
    decreases s.len(),
{
    if s.len() == 0 {
        0
    } else {
        seq_sum(s.drop_last()) + s.last()
    }
}

/// Every running total of `s`, taken from the left, fits in an `i32`.
pub open spec fn running_sums_fit(s: Seq<i32>) -> bool {
    forall|n: int| 0 <= n <= s.len() ==> i32::MIN <= #[trigger] seq_sum(s.take(n)) <= i32::MAX
}

/// The sum of a concatenation is the sum of the sums.
pub proof fn lemma_sum_concat(a: Seq<i32>, b: Seq<i32>)
    ensures
        seq_sum(a + b) == seq_sum(a) + seq_sum(b),
    decreases b.len(),
{
    if b.len() == 0 {
        assert(a + b =~= a);
    } else {
        lemma_sum_concat(a, b.drop_last());
        assert((a + b).drop_last() =~= a + b.drop_last());
    }
}

/// The sum does not depend on the order of the elements: reversing the
/// sequence keeps it.
pub proof fn sum_of_reverse(s: Seq<i32>)
    ensures
        seq_sum(s) == seq_sum(s.reverse()),
    decreases s.len(),
{
    if s.len() > 0 {
        let rest = s.drop_last();
        sum_of_reverse(rest);
        assert(s.reverse() =~= seq![s.last()] + rest.reverse());
        lemma_sum_concat(seq![s.last()], rest.reverse());
        let single = seq![s.last()];
        assert(single.drop_last() =~= Seq::<i32>::empty());
        assert(seq_sum(single.drop_last()) == 0);
        assert(seq_sum(single) == s.last() as int);
    } else {
        assert(s.reverse() =~= s);
    }
}

/// The sum of all elements; 0 when there are none.
pub fn sum_vec(numbers: &Vec<i32>) -> (r: i32)
    requires
        running_sums_fit(numbers@),
    ensures
        r == seq_sum(numbers@),
{
    let mut total: i32 = 0;
    let mut i: usize = 0;
    while i < numbers.len()
        invariant
            i <= numbers@.len(),
            running_sums_fit(numbers@),
            total == seq_sum(numbers@.take(i as int)),
        decreases numbers@.len() - i,
    {
        assert(numbers@.take(i + 1).drop_last() =~= numbers@.take(i as int));
        assert(i32::MIN <= seq_sum(numbers@.take(i + 1)) <= i32::MAX);
        total = total + numbers[i];
        i = i + 1;
    }
    assert(numbers@.take(i as int) =~= numbers@);
    total
}

/// Doubles every element in place.
pub fn double_vec(numbers: &mut Vec<i32>)
    requires
        forall|i: int|
            0 <= i < old(numbers)@.len() ==> i32::MIN <= 2 * #[trigger] old(numbers)@[i]
                <= i32::MAX,
    ensures
        final(numbers)@.len() == old(numbers)@.len(),
        forall|i: int|
            0 <= i < final(numbers)@.len() ==> #[trigger] final(numbers)@[i] == 2 * old(
                numbers,
            )@[i],
{
    let mut i: usize = 0;
    while i < numbers.len()
        invariant
            i <= numbers@.len() == old(numbers)@.len(),
            forall|j: int| 0 <= j < i ==> #[trigger] numbers@[j] == 2 * old(numbers)@[j],
            forall|j: int| i <= j < numbers@.len() ==> #[trigger] numbers@[j] == old(numbers)@[j],
            forall|j: int|
                0 <= j < old(numbers)@.len() ==> i32::MIN <= 2 * #[trigger] old(numbers)@[j]
                    <= i32::MAX,
        decreases numbers@.len() - i,
    {
        let doubled = numbers[i] * 2;
        numbers[i] = doubled;
        i = i + 1;
    }
}

/// The largest element, or `None` for an empty vector.
pub fn find_max(numbers: &Vec<i32>) -> (r: Option<i32>)
    ensures
        numbers@.len() == 0 <==> r is None,
        match r {
            Some(m) => numbers@.contains(m) && forall|i: int|
                0 <= i < numbers@.len() ==> #[trigger] numbers@[i] <= m,
            None => true,
        },
{
    let mut best: Option<i32> = None;
    let mut i: usize = 0;
    while i < numbers.len()
        invariant
            i <= numbers@.len(),
            i == 0 <==> best is None,
            match best {
                Some(m) => (exists|j: int| 0 <= j < i && numbers@[j] == m) && forall|j: int|
                    0 <= j < i ==> #[trigger] numbers@[j] <= m,
                None => true,
            },
        decreases numbers@.len() - i,
    {
        let x = numbers[i];
        match best {
            Some(m) => {
                if x > m {
                    best = Some(x);
                }
            },
            None => {
                best = Some(x);
            },
        }
        i = i + 1;
    }
    best
}

} // verus!
