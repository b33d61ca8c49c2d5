use std::collections::HashSet;
use vstd::prelude::*;

verus! {

broadcast use vstd::std_specs::hash::group_hash_axioms;

/// The set of values that occur in `numbers`.
pub fn unique_elements(numbers: &Vec<i32>) -> (r: HashSet<i32>)
    ensures
        r@ == numbers@.to_set(),
{
    let mut seen: HashSet<i32> = HashSet::new();
    let mut i: usize = 0;
    while i < numbers.len()
        invariant
            i <= numbers@.len(),
            seen@ == numbers@.take(i as int).to_set(),
        decreases numbers@.len() - i,
    {
        seen.insert(numbers[i]);
        proof {
            assert(numbers@.take(i + 1) =~= numbers@.take(i as int).push(numbers@[i as int]));
            numbers@.take(i as int).lemma_push_to_set_commute(numbers@[i as int]);
        }
        i = i + 1;
    }
    assert(numbers@.take(i as int) =~= numbers@);
    seen
}


/// Whether some value occurs twice in `numbers`; stops at the first repeat.
pub fn has_duplicates(numbers: &Vec<i32>) -> (r: bool)
    ensures
        r == !numbers@.no_duplicates(),
{
    let mut seen: HashSet<i32> = HashSet::new();
    let mut i: usize = 0;
    while i < numbers.len()
        invariant
            i <= numbers@.len(),
            seen@ == numbers@.take(i as int).to_set(),
            numbers@.take(i as int).no_duplicates(),
        decreases numbers@.len() - i,
    {
        let x = numbers[i];
        if seen.contains(&x) {
            proof {
                let prefix = numbers@.take(i as int);
                assert(prefix.contains(x));
                let j = choose|j: int| 0 <= j < prefix.len() && prefix[j] == x;
                assert(numbers@[j] == numbers@[i as int]);
            }
            return true;
        }
        seen.insert(x);
        proof {
            assert(numbers@.take(i + 1) =~= numbers@.take(i as int).push(x));
            numbers@.take(i as int).lemma_push_to_set_commute(x);
            let next = numbers@.take(i + 1);
            assert forall|a: int, b: int|
                0 <= a < b < next.len() implies #[trigger] next[a] != #[trigger] next[b] by {
                if b == i {
                    assert(numbers@.take(i as int)[a] == numbers@[a]);
                    assert(numbers@.take(i as int).contains(numbers@[a]));
                }
            }
        }
        i = i + 1;
    }
    assert(numbers@.take(i as int) =~= numbers@);
    false
}

/// The values that occur in both `v1` and `v2`, each once, in the order in
/// which they first occur in `v1`.
pub fn common_elements(v1: &Vec<i32>, v2: &Vec<i32>) -> (r: Vec<i32>)
    ensures
        r@.to_set() == v1@.to_set().intersect(v2@.to_set()),
        r@.no_duplicates(),
{
    let in_second = unique_elements(v2);
    let mut taken: HashSet<i32> = HashSet::new();
    let mut common: Vec<i32> = Vec::new();
    let mut i: usize = 0;
    while i < v1.len()
        invariant
            i <= v1@.len(),
            in_second@ == v2@.to_set(),
            taken@ == common@.to_set(),
            common@.no_duplicates(),
            common@.to_set() == v1@.take(i as int).to_set().intersect(v2@.to_set()),
        decreases v1@.len() - i,
    {
        let x = v1[i];
        proof {
            assert(v1@.take(i + 1) =~= v1@.take(i as int).push(x));
            v1@.take(i as int).lemma_push_to_set_commute(x);
        }
        if in_second.contains(&x) && !taken.contains(&x) {
            proof {
                common@.lemma_push_to_set_commute(x);
                let next = common@.push(x);
                assert forall|a: int, b: int|
                    0 <= a < b < next.len() implies #[trigger] next[a] != #[trigger] next[b] by {
                    if b == common@.len() {
                        assert(common@.contains(common@[a]));
                    }
                }
            }
            common.push(x);
            taken.insert(x);
        }
        i = i + 1;
        assert(common@.to_set() =~= v1@.take(i as int).to_set().intersect(v2@.to_set()));
    }
    assert(v1@.take(i as int) =~= v1@);
    common
}

/// Intersection does not depend on the order of its arguments.
pub proof fn common_elements_commute(v1: Seq<i32>, v2: Seq<i32>)
    ensures
        v1.to_set().intersect(v2.to_set()) == v2.to_set().intersect(v1.to_set()),
{
    assert(v1.to_set().intersect(v2.to_set()) =~= v2.to_set().intersect(v1.to_set()));
}

/// Deduplicating is idempotent: listing the values of `unique_elements` and
/// deduplicating that list gives the same set again.
pub proof fn unique_elements_idempotent(numbers: Seq<i32>)
    ensures
        numbers.to_set().to_seq().to_set() == numbers.to_set(),
{
    vstd::seq_lib::seq_to_set_is_finite(numbers);
    numbers.to_set().lemma_to_seq_to_set_id();
}

} // verus!
