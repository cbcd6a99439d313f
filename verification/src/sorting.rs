//! Stable sorting, as a function on sequences.

use vstd::prelude::*;
use vstd::multiset::*;
use vstd::seq_lib::*;
use crate::text::{before, text_before, texts};

verus! {

/// `x` put into `s` behind the last element that it does not stand before.
pub open spec fn inserted<A>(s: Seq<A>, x: A, less: spec_fn(A, A) -> bool) -> Seq<A>
    decreases s.len(),
{
    if s.len() == 0 || !less(x, s.last()) {
        s.push(x)
    } else {
        inserted(s.drop_last(), x, less).push(s.last())
    }
}

/// The elements of `s` in the order of `less`; among equals, the first stays first.
pub open spec fn sorted<A>(s: Seq<A>, less: spec_fn(A, A) -> bool) -> Seq<A>
    decreases s.len(),
{
    if s.len() == 0 {
        s
    } else {
        inserted(sorted(s.drop_last(), less), s.last(), less)
    }
}

/// No element stands before one that comes earlier.
pub open spec fn in_order<A>(s: Seq<A>, less: spec_fn(A, A) -> bool) -> bool {
    forall|i: int, j: int| 0 <= i < j < s.len() ==> !less(#[trigger] s[j], #[trigger] s[i])
}

/// `less` is a strict order in which being unordered is transitive.
pub open spec fn strict_weak_order<A>(less: spec_fn(A, A) -> bool) -> bool {
    &&& forall|a: A| !#[trigger] less(a, a)
    &&& forall|a: A, b: A, c: A|
        #[trigger] less(a, b) && #[trigger] less(b, c) ==> less(a, c)
    &&& forall|a: A, b: A, c: A|
        !#[trigger] less(a, b) && !#[trigger] less(b, c) ==> !less(a, c)
}

proof fn lemma_inserted<A>(s: Seq<A>, x: A, less: spec_fn(A, A) -> bool)
    requires
        strict_weak_order(less),
        in_order(s, less),
    ensures
        in_order(inserted(s, x, less), less),
        inserted(s, x, less).to_multiset() == s.to_multiset().insert(x),
        inserted(s, x, less).len() == s.len() + 1,
        forall|i: int|
            0 <= i <= s.len() ==> (#[trigger] inserted(s, x, less)[i] == x || s.contains(
                inserted(s, x, less)[i],
            )),
    decreases s.len(),
{
    broadcast use group_to_multiset_ensures;

    let r = inserted(s, x, less);
    if s.len() == 0 || !less(x, s.last()) {
        assert forall|i: int, j: int| 0 <= i < j < r.len() implies !less(
            #[trigger] r[j],
            #[trigger] r[i],
        ) by {
            if j == s.len() && i < s.len() - 1 {
                assert(!less(s[s.len() - 1], s[i]));
            }
        }
        assert forall|i: int| 0 <= i <= s.len() implies (#[trigger] r[i] == x || s.contains(
            r[i],
        )) by {
            if i < s.len() {
                assert(s[i] == r[i]);
            }
        }
    } else {
        let init = s.drop_last();
        let rest = inserted(init, x, less);
        assert(in_order(init, less)) by {
            assert forall|i: int, j: int| 0 <= i < j < init.len() implies !less(
                #[trigger] init[j],
                #[trigger] init[i],
            ) by {
                assert(!less(s[j], s[i]));
            }
        }
        lemma_inserted(init, x, less);
        assert forall|i: int, j: int| 0 <= i < j < r.len() implies !less(
            #[trigger] r[j],
            #[trigger] r[i],
        ) by {
            if j < rest.len() {
                assert(!less(rest[j], rest[i]));
            } else {
                assert(r[i] == rest[i]);
                assert(rest[i] == x || init.contains(rest[i]));
                if rest[i] == x {
                    assert(less(x, s.last()));
                    if less(s.last(), x) {
                        assert(less(x, x));
                    }
                } else {
                    let k = choose|k: int| 0 <= k < init.len() && init[k] == rest[i];
                    assert(!less(s[s.len() - 1], s[k]));
                }
            }
        }
        assert(s =~= init.push(s.last()));
        assert(init.push(s.last()).to_multiset() == init.to_multiset().insert(s.last()));
        assert(r.to_multiset() == rest.to_multiset().insert(s.last()));
        assert(r.to_multiset() =~= s.to_multiset().insert(x));
        assert forall|i: int| 0 <= i <= s.len() implies (#[trigger] r[i] == x || s.contains(
            r[i],
        )) by {
            if i < rest.len() {
                assert(r[i] == rest[i]);
                if rest[i] != x {
                    let k = choose|k: int| 0 <= k < init.len() && init[k] == rest[i];
                    assert(s[k] == r[i]);
                }
            } else {
                assert(s[s.len() - 1] == r[i]);
            }
        }
    }
}

/// Sorting keeps every element, adds none, and leaves them in order.
pub proof fn lemma_sorted<A>(s: Seq<A>, less: spec_fn(A, A) -> bool)
    requires
        strict_weak_order(less),
    ensures
        in_order(sorted(s, less), less),
        sorted(s, less).to_multiset() == s.to_multiset(),
        sorted(s, less).len() == s.len(),
    decreases s.len(),
{
    broadcast use group_to_multiset_ensures;

    if s.len() > 0 {
        lemma_sorted(s.drop_last(), less);
        lemma_inserted(sorted(s.drop_last(), less), s.last(), less);
        assert(s =~= s.drop_last().push(s.last()));
    }
}

/// `sorted` keeps the length, whatever `less` is.
pub proof fn lemma_sorted_len<A>(s: Seq<A>, less: spec_fn(A, A) -> bool)
    ensures
        sorted(s, less).len() == s.len(),
    decreases s.len(),
{
    if s.len() > 0 {
        lemma_sorted_len(s.drop_last(), less);
        lemma_inserted_len(sorted(s.drop_last(), less), s.last(), less);
    }
}

proof fn lemma_inserted_len<A>(s: Seq<A>, x: A, less: spec_fn(A, A) -> bool)
    ensures
        inserted(s, x, less).len() == s.len() + 1,
    decreases s.len(),
{
    if s.len() > 0 && less(x, s.last()) {
        lemma_inserted_len(s.drop_last(), x, less);
    }
}

/// Where `x` goes into `s`: everything from `at` on stands behind it.
pub open spec fn insertion_point<A>(s: Seq<A>, x: A, less: spec_fn(A, A) -> bool, at: int) -> bool {
    &&& 0 <= at <= s.len()
    &&& forall|k: int| at <= k < s.len() ==> less(x, #[trigger] s[k])
    &&& at > 0 ==> !less(x, s[at - 1])
}

/// Inserting at the insertion point is `inserted`.
pub proof fn lemma_insert_at<A>(s: Seq<A>, x: A, less: spec_fn(A, A) -> bool, at: int)
    requires
        insertion_point(s, x, less, at),
    ensures
        s.insert(at, x) == inserted(s, x, less),
    decreases s.len(),
{
    if at == s.len() {
        assert(s.insert(at, x) =~= s.push(x));
    } else {
        let init = s.drop_last();
        assert(less(x, s[s.len() - 1]));
        lemma_insert_at(init, x, less, at);
        assert(s.insert(at, x) =~= init.insert(at, x).push(s.last()));
    }
}

/// The things that a sequence of references refers to.
pub open spec fn derefs<A>(s: Seq<&A>) -> Seq<A> {
    s.map_values(|x: &A| *x)
}

/// Filtering one element more.
pub proof fn lemma_filter_last<A>(s: Seq<A>, keep: spec_fn(A) -> bool)
    requires
        s.len() > 0,
    ensures
        s.filter(keep) == if keep(s.last()) {
            s.drop_last().filter(keep).push(s.last())
        } else {
            s.drop_last().filter(keep)
        },
{
    reveal(Seq::filter);
}

/// Strings by the order of their characters.
pub open spec fn string_less() -> spec_fn(String, String) -> bool {
    |a: String, b: String| text_before(a@, b@)
}

/// The strings of a list in the order of their characters.
pub fn sort_strings(list: Vec<String>) -> (r: Vec<String>)
    ensures
        r@ == sorted(list@, string_less()),
{
    let mut r: Vec<String> = Vec::new();
    let mut i: usize = 0;
    while i < list.len()
        invariant
            i <= list@.len(),
            r@ == sorted(list@.take(i as int), string_less()),
        decreases list@.len() - i,
    {
        let mut at: usize = r.len();
        while at > 0 && before(list[i].as_str(), r[at - 1].as_str())
            invariant
                i < list@.len(),
                at <= r@.len(),
                forall|k: int|
                    at <= k < r@.len() ==> string_less()(list@[i as int], #[trigger] r@[k]),
            decreases at,
        {
            at -= 1;
        }
        proof {
            lemma_insert_at(r@, list@[i as int], string_less(), at as int);
            assert(list@.take(i + 1).drop_last() =~= list@.take(i as int));
        }
        r.insert(at, list[i].clone());
        i += 1;
    }
    assert(list@.take(list@.len() as int) =~= list@);
    r
}

/// `s` without every element that equals the one before it.
pub open spec fn without_repeats(s: Seq<Seq<char>>) -> Seq<Seq<char>>
    decreases s.len(),
{
    if s.len() < 2 {
        s
    } else if s.last() == s[s.len() - 2] {
        without_repeats(s.drop_last())
    } else {
        without_repeats(s.drop_last()).push(s.last())
    }
}

/// The list without every string that equals the one before it.
pub fn dedup_strings(list: &Vec<String>) -> (r: Vec<String>)
    ensures
        texts(r@) == without_repeats(texts(list@)),
{
    let mut r: Vec<String> = Vec::new();
    let mut i: usize = 0;
    assert(texts(r@) =~= texts(list@).take(0));
    while i < list.len()
        invariant
            i <= list@.len(),
            texts(r@) == without_repeats(texts(list@).take(i as int)),
        decreases list@.len() - i,
    {
        let ghost all = texts(list@);
        assert(all.take(i + 1).drop_last() =~= all.take(i as int));
        if i > 0 && list[i] == list[i - 1] {
            assert(all.take(i + 1).last() == all.take(i + 1)[i - 1]);
        } else {
            let ghost prior = texts(r@);
            r.push(list[i].clone());
            assert(texts(r@) =~= prior.push(all[i as int]));
            if i == 0 {
                assert(prior =~= all.take(0));
                assert(texts(r@) =~= all.take(1));
            }
        }
        i += 1;
    }
    assert(texts(list@).take(list@.len() as int) =~= texts(list@));
    r
}

} // verus!
