//! An in-place quicksort with Lomuto partitioning.
//!
//! A range is split around its last element, the pivot: what is not larger
//! goes before it, what is larger after it, and the two parts are sorted
//! in turn. Equal elements may change places. With the pivot fixed at the
//! end, a range that is already in order, or in reverse order, is split
//! into one element and all the rest each time: sorting it takes quadratic
//! time, and the recursion goes as deep as the range is long.

use vstd::prelude::*;
use vstd::relations::{sorted_by, total_ordering};
use vstd::seq_lib::{lemma_multiset_commutative, lemma_sorted_unique, to_multiset_update};

verus! {

/// `<[T]>::swap` exchanges the elements at two positions of a slice and
/// leaves every other position alone. It panics when either index is out of
/// bounds, so both must lie inside the slice.
pub assume_specification<T>[ <[T]>::swap ](slice: &mut [T], a: usize, b: usize)
    requires
        a < old(slice)@.len(),
        b < old(slice)@.len(),
    ensures
        final(slice)@ == swapped(old(slice)@, a as int, b as int),
;

/// The sequence `s` with the elements at positions `a` and `b` exchanged.
pub open spec fn swapped<E>(s: Seq<E>, a: int, b: int) -> Seq<E> {
    s.update(a, s[b]).update(b, s[a])
}

/// Every element is at most each element that follows it.
pub open spec fn sorted(s: Seq<usize>) -> bool {
    forall|i: int, j: int| 0 <= i < j < s.len() ==> s[i] <= s[j]
}

/// The positions `begin..end` of `s` are in ascending order.
pub open spec fn sorted_within(s: Seq<usize>, begin: int, end: int) -> bool {
    forall|i: int, j: int| begin <= i < j < end ==> s[i] <= s[j]
}

/// `after` holds the elements of `before`, moved around inside `begin..end`
/// only: every position outside the range keeps its element, and the range
/// holds the same elements with the same multiplicities.
pub open spec fn rearranged_within(
    before: Seq<usize>,
    after: Seq<usize>,
    begin: int,
    end: int,
) -> bool {
    &&& after.len() == before.len()
    &&& forall|k: int| 0 <= k < before.len() && !(begin <= k < end) ==> after[k] == before[k]
    &&& after.subrange(begin, end).to_multiset() == before.subrange(begin, end).to_multiset()
}

/// No element of `begin..end` is smaller than the one at `begin`.
pub open spec fn least_first(s: Seq<usize>, begin: int, end: int) -> bool {
    forall|k: int| begin <= k < end ==> s[begin] <= s[k]
}

/// `output` is `input` in ascending order: it is sorted and holds the same
/// elements, each as often as `input` does.
pub open spec fn is_sort_of(output: Seq<usize>, input: Seq<usize>) -> bool {
    &&& sorted(output)
    &&& output.to_multiset() == input.to_multiset()
}

/// Exchanging two elements changes neither the elements nor how often
/// each occurs.
proof fn lemma_swap_keeps_multiset(s: Seq<usize>, a: int, b: int)
    requires
        0 <= a < s.len(),
        0 <= b < s.len(),
    ensures
        swapped(s, a, b).to_multiset() == s.to_multiset(),
{
    broadcast use vstd::multiset::group_multiset_axioms;
    broadcast use vstd::seq_lib::group_to_multiset_ensures;

    let s1 = s.update(a, s[b]);
    to_multiset_update(s, a, s[b]);
    to_multiset_update(s1, b, s[a]);
    assert(s.contains(s[a]));
    assert(s.contains(s[b]));
    assert(swapped(s, a, b).to_multiset() =~= s.to_multiset());
}

/// Exchanging two elements of a range rearranges that range.
proof fn lemma_swap_rearranges(s: Seq<usize>, begin: int, end: int, a: int, b: int)
    requires
        0 <= begin <= a < end <= s.len(),
        begin <= b < end,
    ensures
        rearranged_within(s, swapped(s, a, b), begin, end),
{
    let window = s.subrange(begin, end);
    assert(swapped(s, a, b).subrange(begin, end) =~= swapped(window, a - begin, b - begin));
    lemma_swap_keeps_multiset(window, a - begin, b - begin);
}

/// What is rearranged within a range is rearranged within every range
/// that holds it.
proof fn lemma_rearranged_widens(
    before: Seq<usize>,
    after: Seq<usize>,
    lo: int,
    hi: int,
    begin: int,
    end: int,
)
    requires
        0 <= begin <= lo <= hi <= end <= before.len(),
        rearranged_within(before, after, lo, hi),
    ensures
        rearranged_within(before, after, begin, end),
{
    let b = before.subrange(begin, end);
    let a = after.subrange(begin, end);
    assert(b =~= before.subrange(begin, lo) + before.subrange(lo, hi) + before.subrange(hi, end));
    assert(a =~= after.subrange(begin, lo) + after.subrange(lo, hi) + after.subrange(hi, end));
    assert(after.subrange(begin, lo) =~= before.subrange(begin, lo));
    assert(after.subrange(hi, end) =~= before.subrange(hi, end));
    lemma_multiset_commutative(before.subrange(begin, lo), before.subrange(lo, hi));
    lemma_multiset_commutative(
        before.subrange(begin, lo) + before.subrange(lo, hi),
        before.subrange(hi, end),
    );
    lemma_multiset_commutative(after.subrange(begin, lo), after.subrange(lo, hi));
    lemma_multiset_commutative(
        after.subrange(begin, lo) + after.subrange(lo, hi),
        after.subrange(hi, end),
    );
}

/// An element found in `begin..end` after a rearrangement of that range was
/// somewhere in the range before it.
proof fn lemma_rearranged_element(
    before: Seq<usize>,
    after: Seq<usize>,
    begin: int,
    end: int,
    k: int,
) -> (origin: int)
    requires
        0 <= begin <= k < end <= before.len(),
        rearranged_within(before, after, begin, end),
    ensures
        begin <= origin < end,
        before[origin] == after[k],
{
    broadcast use vstd::seq_lib::group_to_multiset_ensures;

    let b = before.subrange(begin, end);
    let a = after.subrange(begin, end);
    assert(a[k - begin] == after[k]);
    assert(a.contains(after[k]));
    assert(a.to_multiset().count(after[k]) > 0);
    assert(b.contains(after[k]));
    let at = choose|at: int| 0 <= at < b.len() && b[at] == after[k];
    begin + at
}

/// Lomuto partition of `begin..end` around the element at `end - 1`: the
/// pivot ends at the returned position, with nothing larger before it and
/// only larger elements after it.
fn partition(slice: &mut Vec<usize>, begin: usize, end: usize) -> (mid: usize)
    requires
        begin < end <= old(slice)@.len(),
    ensures
        begin <= mid < end,
        rearranged_within(old(slice)@, final(slice)@, begin as int, end as int),
        final(slice)@[mid as int] == old(slice)@[end - 1],
        forall|k: int| begin <= k < mid ==> final(slice)@[k] <= final(slice)@[mid as int],
        forall|k: int| mid < k < end ==> final(slice)@[k] > final(slice)@[mid as int],
        mid == begin ==> forall|k: int|
            begin <= k < end - 1 ==> #[trigger] old(slice)@[k] > old(slice)@[end - 1],
{
    let ghost before = slice@;
    let (mut i, v): (usize, usize) = (begin, slice[end - 1]);
    for j in begin..end - 1
        invariant
            begin < end <= before.len(),
            begin <= i <= j,
            slice@.len() == before.len(),
            slice@[end - 1] == v,
            v == before[end - 1],
            forall|k: int| begin <= k < i ==> slice@[k] <= v,
            forall|k: int| i <= k < j ==> slice@[k] > v,
            rearranged_within(before, slice@, begin as int, end as int),
            i == begin ==> slice@ == before,
    {
        if slice[j] <= v {
            proof {
                lemma_swap_rearranges(slice@, begin as int, end as int, i as int, j as int);
            }
            slice.swap(i, j);
            i += 1;
        }
    }
    proof {
        lemma_swap_rearranges(slice@, begin as int, end as int, i as int, end - 1);
    }
    slice.swap(i, end - 1);
    i
}

/// Sorts the positions `begin..end` of `slice` and leaves the rest alone.
///
/// The right part takes the split position with it. Where the split falls
/// on `begin`, that part is the whole range again, but now with its
/// smallest element in front, and from such a range the next split falls
/// further right: so the recursion ends.
fn quick_sort(slice: &mut Vec<usize>, begin: usize, end: usize)
    requires
        begin <= end <= old(slice)@.len(),
    ensures
        rearranged_within(old(slice)@, final(slice)@, begin as int, end as int),
        sorted_within(final(slice)@, begin as int, end as int),
    decreases
        end - begin,
        (if least_first(old(slice)@, begin as int, end as int) { 0int } else { 1int }),
{
    if end - begin >= 2 {
        let ghost before = slice@;
        let mid = partition(slice, begin, end);
        let ghost parted = slice@;
        quick_sort(slice, begin, mid);
        let ghost left_done = slice@;
        proof {
            assert forall|k: int| begin <= k < mid implies left_done[k] <= parted[mid as int] by {
                let origin = lemma_rearranged_element(parted, left_done, begin as int, mid as int, k);
            }
            if mid == begin {
                assert(left_done =~= parted);
                assert(least_first(left_done, mid as int, end as int));
                assert(before[begin as int] > before[end - 1]);
                assert(!least_first(before, begin as int, end as int));
            }
        }
        quick_sort(slice, mid, end);
        proof {
            let done = slice@;
            assert forall|k: int| mid <= k < end implies done[k] >= parted[mid as int] by {
                let origin = lemma_rearranged_element(left_done, done, mid as int, end as int, k);
            }
            lemma_rearranged_widens(parted, left_done, begin as int, mid as int, begin as int, end as int);
            lemma_rearranged_widens(left_done, done, mid as int, end as int, begin as int, end as int);
        }
    }
}

/// Sorts `slice` in place into ascending order.
///
/// The pivot is always the last element of the range at hand, so an input
/// that is already in order, or in reverse order, takes quadratic time.
pub fn quicksort(slice: &mut Vec<usize>)
    ensures
        sorted(final(slice)@),
        final(slice)@.to_multiset() == old(slice)@.to_multiset(),
        final(slice)@.len() == old(slice)@.len(),
        old(slice)@.len() <= 1 ==> final(slice)@ == old(slice)@,
        sorted(old(slice)@) ==> final(slice)@ == old(slice)@,
{
    if slice.len() < 2 {
        return ;
    }
    let len = slice.len();
    quick_sort(slice, 0, len);
    proof {
        assert(slice@.subrange(0, len as int) =~= slice@);
        assert(old(slice)@.subrange(0, len as int) =~= old(slice)@);
        if sorted(old(slice)@) {
            lemma_sort_of_sorted(old(slice)@, slice@);
        }
    }
}

/// A sequence has one ascending arrangement: two sorted sequences with the
/// same elements are the same sequence.
pub proof fn lemma_sort_unique(input: Seq<usize>, first: Seq<usize>, second: Seq<usize>)
    requires
        is_sort_of(first, input),
        is_sort_of(second, input),
    ensures
        first == second,
{
    let leq = |a: usize, b: usize| a <= b;
    assert(total_ordering(leq));
    assert(sorted_by(first, leq));
    assert(sorted_by(second, leq));
    lemma_sorted_unique(first, second, leq);
}

/// Sorting a sequence that is already in ascending order gives it back
/// unchanged.
pub proof fn lemma_sort_of_sorted(input: Seq<usize>, output: Seq<usize>)
    requires
        sorted(input),
        is_sort_of(output, input),
    ensures
        output == input,
{
    lemma_sort_unique(input, output, input);
}

/// A sequence of at most one element, or of one value throughout, is
/// already in ascending order: sorting gives it back unchanged.
pub proof fn lemma_sort_of_uniform(input: Seq<usize>, output: Seq<usize>)
    requires
        input.len() <= 1 || forall|i: int, j: int|
            0 <= i < input.len() && 0 <= j < input.len() ==> input[i] == input[j],
        is_sort_of(output, input),
    ensures
        output == input,
{
    assert(sorted(input));
    lemma_sort_of_sorted(input, output);
}

/// Sorting is idempotent: sorting the outcome of a sort once more gives that
/// same outcome.
pub proof fn lemma_sort_idempotent(input: Seq<usize>, once: Seq<usize>, twice: Seq<usize>)
    requires
        is_sort_of(once, input),
        is_sort_of(twice, once),
    ensures
        twice == once,
{
    lemma_sort_of_sorted(once, twice);
}

} // verus!
