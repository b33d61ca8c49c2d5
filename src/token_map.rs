use vstd::prelude::*;

use crate::text::{is_whitespace, is_whitespace_char};

verus! {

/// A map from tokens to values, held as a list of entries whose keys are
/// pairwise distinct. Its view is the mathematical map from each key's
/// characters to its value.
pub struct TokenMap<T> {
    entries: Vec<(String, T)>,
}

impl<T> TokenMap<T> {
    /// No two entries share a key.
    pub closed spec fn wf(&self) -> bool {
        forall|i: int, j: int|
            0 <= i < self.entries@.len() && 0 <= j < self.entries@.len() && i != j
                ==> #[trigger] self.entries@[i].0@ != #[trigger] self.entries@[j].0@
    }

    spec fn has_key(&self, k: Seq<char>) -> bool {
        exists|i: int| 0 <= i < self.entries@.len() && #[trigger] self.entries@[i].0@ == k
    }

    spec fn slot_of(&self, k: Seq<char>) -> int {
        choose|i: int| 0 <= i < self.entries@.len() && #[trigger] self.entries@[i].0@ == k
    }

    proof fn lemma_entry(&self, i: int)
        requires
            self.wf(),
            0 <= i < self.entries@.len(),
        ensures
            self@.contains_key(self.entries@[i].0@),
            self@[self.entries@[i].0@] == self.entries@[i].1,
    {
        let k = self.entries@[i].0@;
        assert(self.has_key(k));
        let j = self.slot_of(k);
        assert(j == i);
    }

    /// An empty map.
    pub fn new() -> (r: Self)
        ensures
            r.wf(),
            r@ == Map::<Seq<char>, T>::empty(),
    {
        let r = TokenMap { entries: Vec::new() };
        assert(r@ =~= Map::<Seq<char>, T>::empty());
        r
    }

    /// Whether the map holds no key.
    pub fn is_empty(&self) -> (r: bool)
        requires
            self.wf(),
        ensures
            r == (self@ == Map::<Seq<char>, T>::empty()),
    {
        if self.entries.len() == 0 {
            assert(self@ =~= Map::<Seq<char>, T>::empty());
            true
        } else {
            proof {
                self.lemma_entry(0);
                assert(!Map::<Seq<char>, T>::empty().contains_key(self.entries@[0].0@));
            }
            false
        }
    }

    fn find(&self, key: &String) -> (r: Option<usize>)
        requires
            self.wf(),
        ensures
            match r {
                Some(i) => i < self.entries@.len() && self.entries@[i as int].0@ == key@,
                None => !self@.contains_key(key@),
            },
    {
        let mut i: usize = 0;
        while i < self.entries.len()
            invariant
                i <= self.entries@.len(),
                forall|j: int| 0 <= j < i ==> self.entries@[j].0@ != key@,
            decreases self.entries@.len() - i,
        {
            if self.entries[i].0 == *key {
                return Some(i);
            }
            i = i + 1;
        }
        None
    }

    /// The value stored under `key`, if any.
    pub fn get(&self, key: &str) -> (r: Option<&T>)
        requires
            self.wf(),
        ensures
            match r {
                Some(v) => self@.contains_key(key@) && *v == self@[key@],
                None => !self@.contains_key(key@),
            },
    {
        let owned = key.to_owned();
        match self.find(&owned) {
            Some(i) => {
                proof {
                    self.lemma_entry(i as int);
                }
                Some(&self.entries[i].1)
            },
            None => None,
        }
    }

    /// Stores `value` under `key`, replacing any value that was there.
    pub fn insert(&mut self, key: String, value: T)
        requires
            old(self).wf(),
        ensures
            final(self).wf(),
            final(self)@ == old(self)@.insert(key@, value),
    {
        let ghost k = key@;
        match self.find(&key) {
            Some(i) => {
                self.entries[i] = (key, value);
                proof {
                    let e = self.entries@;
                    assert forall|k2: Seq<char>|
                        #![trigger self@.contains_key(k2)]
                        self@.contains_key(k2) == old(self)@.insert(k, value).contains_key(k2)
                        && (self@.contains_key(k2) ==> self@[k2] == old(self)@.insert(
                            k,
                            value,
                        )[k2]) by {
                        if old(self).has_key(k2) {
                            let j = old(self).slot_of(k2);
                            old(self).lemma_entry(j);
                            assert(self.entries@[j].0@ == k2);
                        }
                        if self.has_key(k2) {
                            let j = self.slot_of(k2);
                            self.lemma_entry(j);
                            if j != i {
                                old(self).lemma_entry(j);
                            }
                        }
                    }
                    assert(self@ =~= old(self)@.insert(k, value));
                }
            },
            None => {
                self.entries.push((key, value));
                proof {
                    let n = old(self).entries@.len() as int;
                    assert forall|k2: Seq<char>|
                        #![trigger self@.contains_key(k2)]
                        self@.contains_key(k2) == old(self)@.insert(k, value).contains_key(k2)
                        && (self@.contains_key(k2) ==> self@[k2] == old(self)@.insert(
                            k,
                            value,
                        )[k2]) by {
                        if k2 == k {
                            assert(self.entries@[n].0@ == k2);
                        }
                        if old(self).has_key(k2) {
                            let j = old(self).slot_of(k2);
                            old(self).lemma_entry(j);
                            assert(self.entries@[j].0@ == k2);
                        }
                        if self.has_key(k2) {
                            let j = self.slot_of(k2);
                            self.lemma_entry(j);
                            if j != n {
                                old(self).lemma_entry(j);
                            }
                        }
                    }
                    assert(self@ =~= old(self)@.insert(k, value));
                }
            },
        }
    }
}

impl<T> View for TokenMap<T> {
    type V = Map<Seq<char>, T>;

    closed spec fn view(&self) -> Map<Seq<char>, T> {
        Map::new(|k: Seq<char>| self.has_key(k), |k: Seq<char>| self.entries@[self.slot_of(k)].1)
    }
}


/// The additive union of two maps: every key of either, with the sum of its
/// two values where both hold it.
pub open spec fn additive_union(a: Map<Seq<char>, i32>, b: Map<Seq<char>, i32>) -> Map<
    Seq<char>,
    i32,
> {
    Map::new(
        |k: Seq<char>| a.contains_key(k) || b.contains_key(k),
        |k: Seq<char>|
            if a.contains_key(k) && b.contains_key(k) {
                (a[k] + b[k]) as i32
            } else if a.contains_key(k) {
                a[k]
            } else {
                b[k]
            },
    )
}

/// Every key held by both maps has a sum of values that fits in an `i32`.
pub open spec fn sums_fit(a: Map<Seq<char>, i32>, b: Map<Seq<char>, i32>) -> bool {
    forall|k: Seq<char>|
        a.contains_key(k) && b.contains_key(k) ==> i32::MIN <= #[trigger] a[k] + #[trigger] b[k]
            <= i32::MAX
}

impl TokenMap<i32> {
    /// The part of the view held by the first `n` entries.
    spec fn prefix_view(&self, n: int) -> Map<Seq<char>, i32> {
        Map::new(
            |k: Seq<char>| exists|j: int| 0 <= j < n && #[trigger] self.entries@[j].0@ == k,
            |k: Seq<char>| self@[k],
        )
    }
}

/// Merges two maps: the keys of both, with values added where a key is in both.
/// Neither input changes.
pub fn merge_maps(map1: &TokenMap<i32>, map2: &TokenMap<i32>) -> (r: TokenMap<i32>)
    requires
        map1.wf(),
        map2.wf(),
        sums_fit(map1@, map2@),
    ensures
        r.wf(),
        r@ == additive_union(map1@, map2@),
{
    let mut merged: TokenMap<i32> = TokenMap { entries: Vec::new() };
    let mut i: usize = 0;
    while i < map1.entries.len()
        invariant
            i <= map1.entries@.len(),
            merged.entries@ == map1.entries@.subrange(0, i as int),
        decreases map1.entries@.len() - i,
    {
        let key = map1.entries[i].0.clone();
        merged.entries.push((key, map1.entries[i].1));
        i = i + 1;
        assert(merged.entries@ =~= map1.entries@.subrange(0, i as int));
    }
    assert(merged.entries@ =~= map1.entries@);
    assert(merged@ =~= map1@);
    assert(map2.prefix_view(0) =~= Map::<Seq<char>, i32>::empty());
    assert(merged@ =~= additive_union(map1@, map2.prefix_view(0)));
    let mut i: usize = 0;
    while i < map2.entries.len()
        invariant
            map1.wf(),
            map2.wf(),
            sums_fit(map1@, map2@),
            i <= map2.entries@.len(),
            merged.wf(),
            merged@ == additive_union(map1@, map2.prefix_view(i as int)),
        decreases map2.entries@.len() - i,
    {
        let key = &map2.entries[i].0;
        let value = map2.entries[i].1;
        let ghost k = key@;
        let ghost before = map2.prefix_view(i as int);
        proof {
            map2.lemma_entry(i as int);
            assert(!before.contains_key(k));
            assert(map2.prefix_view(i + 1) =~= before.insert(k, value));
        }
        match merged.find(key) {
            Some(j) => {
                let current = merged.entries[j].1;
                proof {
                    merged.lemma_entry(j as int);
                }
                merged.insert(key.clone(), current + value);
            },
            None => {
                merged.insert(key.clone(), value);
            },
        }
        i = i + 1;
        assert(merged@ =~= additive_union(map1@, map2.prefix_view(i as int)));
    }
    assert(map2.prefix_view(i as int) =~= map2@);
    merged
}

/// Merging is commutative: swapping the two maps gives the same result.
pub proof fn merge_is_commutative(a: TokenMap<i32>, b: TokenMap<i32>)
    ensures
        additive_union(a@, b@) == additive_union(b@, a@),
{
    assert(additive_union(a@, b@) =~= additive_union(b@, a@));
}


/// The index at which the word that covers position `i` of `s` ends: the
/// first whitespace at or after `i`, or the length of `s`.
pub open spec fn word_end(s: Seq<char>, i: nat) -> nat
    decreases s.len() - i,
{
    if i >= s.len() {
        s.len()
    } else if is_whitespace(s[i as int]) {
        i
    } else {
        word_end(s, i + 1)
    }
}

/// `word_end` never goes back and never passes the end.
pub proof fn lemma_word_end_bounds(s: Seq<char>, i: nat)
    requires
        i <= s.len(),
    ensures
        i <= word_end(s, i) <= s.len(),
    decreases s.len() - i,
{
    if i < s.len() && !is_whitespace(s[i as int]) {
        lemma_word_end_bounds(s, i + 1);
    }
}

/// The words of `s` from position `i` on: the maximal runs of characters
/// that are not whitespace, in order.
pub open spec fn words_from(s: Seq<char>, i: nat) -> Seq<Seq<char>>
    decreases s.len() - i,
    via words_from_decreases
{
    if i >= s.len() {
        Seq::empty()
    } else if is_whitespace(s[i as int]) {
        words_from(s, i + 1)
    } else {
        seq![s.subrange(i as int, word_end(s, i) as int)] + words_from(s, word_end(s, i))
    }
}

#[via_fn]
proof fn words_from_decreases(s: Seq<char>, i: nat) {
    if i < s.len() && !is_whitespace(s[i as int]) {
        lemma_word_end_bounds(s, i + 1);
    }
}

/// The words of `s`, split on runs of whitespace.
pub open spec fn words(s: Seq<char>) -> Seq<Seq<char>> {
    words_from(s, 0)
}

/// Counts how often each whitespace-separated word occurs in `text`. The
/// counts are `u32`, so the number of words must fit in one.
pub fn word_count(text: &str) -> (r: TokenMap<u32>)
    requires
        words(text@).len() <= u32::MAX,
    ensures
        r.wf(),
        forall|w: Seq<char>| #[trigger] r@.contains_key(w) <==> words(text@).contains(w),
        forall|w: Seq<char>|
            #[trigger] r@.contains_key(w) ==> r@[w] as nat == words(text@).to_multiset().count(
                w,
            ),
{
    let ghost s = text@;
    let n = text.unicode_len();
    let mut counts: TokenMap<u32> = TokenMap::new();
    let ghost mut done: Seq<Seq<char>> = Seq::empty();
    let mut i: usize = 0;
    while i < n
        invariant
            n == s.len(),
            s == text@,
            words(s).len() <= u32::MAX,
            i <= n,
            counts.wf(),
            done + words_from(s, i as nat) == words(s),
            forall|w: Seq<char>| #[trigger] counts@.contains_key(w) <==> done.contains(w),
            forall|w: Seq<char>|
                #[trigger] counts@.contains_key(w) ==> counts@[w] as nat == done.to_multiset().count(
                    w,
                ) && counts@[w] <= done.len(),
        decreases n - i,
    {
        if is_whitespace_char(text.get_char(i)) {
            i = i + 1;
        } else {
            let mut j: usize = i + 1;
            while j < n && !is_whitespace_char(text.get_char(j))
                invariant
                    n == s.len(),
                    s == text@,
                    i < j <= n,
                    word_end(s, i as nat) == word_end(s, j as nat),
                decreases n - j,
            {
                j = j + 1;
            }
            let word = text.substring_char(i, j).to_owned();
            let ghost w = word@;
            proof {
                assert(words_from(s, i as nat) == seq![w] + words_from(s, j as nat));
                assert(done + words_from(s, i as nat) =~= done.push(w) + words_from(s, j as nat));
            }
            let current: u32 = match counts.find(&word) {
                Some(k) => {
                    proof {
                        counts.lemma_entry(k as int);
                    }
                    counts.entries[k].1
                },
                None => 0,
            };
            let ghost before = counts@;
            let ghost m0 = done.to_multiset();
            proof {
                done.to_multiset_ensures();
                vstd::seq_lib::to_multiset_build(done, w);
            }
            assert(current as nat == m0.count(w) && current <= done.len());
            counts.insert(word, current + 1);
            proof {
                assert(done.push(w).to_multiset() =~= m0.insert(w));
                assert forall|w2: Seq<char>| #[trigger]
                    counts@.contains_key(w2) implies counts@[w2] as nat == done.push(
                    w,
                ).to_multiset().count(w2) && counts@[w2] <= done.len() + 1 by {
                    if w2 != w {
                        assert(before.contains_key(w2));
                    }
                }
                assert forall|w2: Seq<char>| #[trigger]
                    done.push(w).contains(w2) <==> (done.contains(w2) || w2 == w) by {
                    if done.push(w).contains(w2) {
                        let x = choose|x: int| 0 <= x < done.len() + 1 && done.push(w)[x] == w2;
                        if x < done.len() {
                            assert(done[x] == w2);
                        }
                    }
                    if done.contains(w2) {
                        let x = choose|x: int| 0 <= x < done.len() && done[x] == w2;
                        assert(done.push(w)[x] == w2);
                    }
                    if w2 == w {
                        assert(done.push(w)[done.len() as int] == w2);
                    }
                }
            }
            proof {
                done = done.push(w);
            }
            i = j;
        }
    }
    counts
}

} // verus!
