use vstd::prelude::*;
use vstd::relations::{sorted_by, total_ordering};
use vstd::seq_lib::lemma_sorted_unique;

verus! {

/// The order of strings: by the first character in which they differ, a
/// string before every longer one that begins with it.
pub open spec fn title_le(a: Seq<char>, b: Seq<char>) -> bool
    decreases a.len(),
{
    if a.len() == 0 {
        true
    } else if b.len() == 0 {
        false
    } else if a[0] != b[0] {
        a[0] < b[0]
    } else {
        title_le(a.drop_first(), b.drop_first())
    }
}

/// What a list of strings says, string by string.
pub open spec fn titles(works: Seq<String>) -> Seq<Seq<char>> {
    works.map_values(|work: String| work@)
}

/// Each title stands before the titles that follow it in the order of
/// strings.
pub open spec fn titles_sorted(list: Seq<Seq<char>>) -> bool {
    forall|i: int, j: int| 0 <= i < j < list.len() ==> title_le(list[i], list[j])
}

/// Every string stands in the order of strings with itself.
pub proof fn lemma_title_le_reflexive(a: Seq<char>)
    ensures
        title_le(a, a),
    decreases a.len(),
{
    if a.len() > 0 {
        lemma_title_le_reflexive(a.drop_first());
    }
}

/// Of two strings, one stands before the other or they are the same.
pub proof fn lemma_title_le_total(a: Seq<char>, b: Seq<char>)
    ensures
        title_le(a, b) || title_le(b, a),
    decreases a.len(),
{
    if a.len() > 0 && b.len() > 0 && a[0] == b[0] {
        lemma_title_le_total(a.drop_first(), b.drop_first());
    }
}

/// Two strings that each stand before the other are the same string.
pub proof fn lemma_title_le_antisymmetric(a: Seq<char>, b: Seq<char>)
    requires
        title_le(a, b),
        title_le(b, a),
    ensures
        a == b,
    decreases a.len(),
{
    if a.len() > 0 && b.len() > 0 {
        lemma_title_le_antisymmetric(a.drop_first(), b.drop_first());
        assert(a =~= seq![a[0]] + a.drop_first());
        assert(b =~= seq![b[0]] + b.drop_first());
    } else {
        assert(a =~= b);
    }
}

/// What stands before a string stands before all that this string stands
/// before.
pub proof fn lemma_title_le_transitive(a: Seq<char>, b: Seq<char>, c: Seq<char>)
    requires
        title_le(a, b),
        title_le(b, c),
    ensures
        title_le(a, c),
    decreases a.len(),
{
    if a.len() > 0 && b.len() > 0 && c.len() > 0 && a[0] == b[0] && b[0] == c[0] {
        lemma_title_le_transitive(a.drop_first(), b.drop_first(), c.drop_first());
    }
}

/// Titles have one sorted arrangement: two sorted lists of the same titles
/// are the same list.
pub proof fn lemma_titles_sorted_unique(first: Seq<Seq<char>>, second: Seq<Seq<char>>)
    requires
        titles_sorted(first),
        titles_sorted(second),
        first.to_multiset() == second.to_multiset(),
    ensures
        first == second,
{
    let leq = |a: Seq<char>, b: Seq<char>| title_le(a, b);
    assert forall|a: Seq<char>| #[trigger] leq(a, a) by {
        lemma_title_le_reflexive(a);
    }
    assert forall|a: Seq<char>, b: Seq<char>| #[trigger] leq(a, b) || #[trigger] leq(b, a) by {
        lemma_title_le_total(a, b);
    }
    assert forall|a: Seq<char>, b: Seq<char>| #[trigger]
        leq(a, b) && #[trigger] leq(b, a) implies a == b by {
        lemma_title_le_antisymmetric(a, b);
    }
    assert forall|a: Seq<char>, b: Seq<char>, c: Seq<char>| #[trigger]
        leq(a, b) && #[trigger] leq(b, c) implies leq(a, c) by {
        lemma_title_le_transitive(a, b, c);
    }
    assert(total_ordering(leq));
    assert(sorted_by(first, leq));
    assert(sorted_by(second, leq));
    lemma_sorted_unique(first, second, leq);
}

/// `<[String]>::sort`: puts the strings into ascending order, which for
/// strings is the order of their bytes and so of their characters; none is
/// lost, added or changed.
#[verifier::external_body]
fn sort_titles(works: &mut Vec<String>)
    ensures
        titles_sorted(titles(final(works)@)),
        titles(final(works)@).to_multiset() == titles(old(works)@).to_multiset(),
{
    works.sort();
}

/// Sorts the works of every artist of the table, an entry for each artist
/// with the artist's name and works; the artists stay where they are.
pub fn sort_works(table: &mut Vec<(String, Vec<String>)>)
    ensures
        final(table)@.len() == old(table)@.len(),
        forall|i: int|
            0 <= i < old(table)@.len() ==> {
                &&& (#[trigger] final(table)@[i]).0 == old(table)@[i].0
                &&& titles_sorted(titles(final(table)@[i].1@))
                &&& titles(final(table)@[i].1@).to_multiset() == titles(
                    old(table)@[i].1@,
                ).to_multiset()
            },
{
    let ghost before = table@;
    let len = table.len();
    for at in 0..len
        invariant
            len == before.len(),
            table@.len() == before.len(),
            forall|i: int|
                0 <= i < at ==> {
                    &&& (#[trigger] table@[i]).0 == before[i].0
                    &&& titles_sorted(titles(table@[i].1@))
                    &&& titles(table@[i].1@).to_multiset() == titles(before[i].1@).to_multiset()
                },
            forall|i: int| at <= i < before.len() ==> table@[i] == before[i],
    {
        sort_titles(&mut table[at].1);
    }
}

/// A borrow can be pointed at another integer; it then reads that one.
pub fn reference_change_address(b: bool) {
    let x: i32 = 10;
    let y: i32 = 20;
    let mut r = &x;
    if b {
        r = &y
    };
    assert(*r == 10 || *r == 20);
}

/// The product of the numbers from one to `n`.
pub open spec fn factorial_of(n: nat) -> nat
    decreases n,
{
    if n == 0 {
        1
    } else {
        n * factorial_of((n - 1) as nat)
    }
}

/// A factorial is never zero and at least as large as its argument, and
/// from three on it is larger.
pub proof fn lemma_factorial_bounds(n: nat)
    ensures
        factorial_of(n) >= 1,
        factorial_of(n) >= n,
        n >= 3 ==> factorial_of(n) > n,
    decreases n,
{
    if n > 0 {
        lemma_factorial_bounds((n - 1) as nat);
        let below = factorial_of((n - 1) as nat);
        assert(n * below >= n) by (nonlinear_arith)
            requires
                below >= 1,
        ;
        if n >= 3 {
            assert(n * below > n) by (nonlinear_arith)
                requires
                    below >= 2,
                    n >= 3,
            ;
        }
    }
}

/// Factorials never decrease.
pub proof fn lemma_factorial_monotonic(i: nat, j: nat)
    requires
        i <= j,
    ensures
        factorial_of(i) <= factorial_of(j),
    decreases j - i,
{
    if i < j {
        lemma_factorial_monotonic(i, (j - 1) as nat);
        lemma_factorial_bounds((j - 1) as nat);
        assert(j * factorial_of((j - 1) as nat) >= factorial_of((j - 1) as nat))
            by (nonlinear_arith)
            requires
                j >= 1,
        ;
    }
}

/// The factorial of `n`, which must fit in a `usize`.
pub fn factorial(n: usize) -> (product: usize)
    requires
        factorial_of(n as nat) <= usize::MAX,
    ensures
        product == factorial_of(n as nat),
{
    proof {
        lemma_factorial_bounds(n as nat);
    }
    let mut a: usize = 1;
    for b in 1..n + 1
        invariant
            a == factorial_of((b - 1) as nat),
            factorial_of(n as nat) <= usize::MAX,
    {
        proof {
            assert(factorial_of(b as nat) == b * factorial_of((b - 1) as nat));
            lemma_factorial_monotonic(b as nat, n as nat);
            assert(a * b == factorial_of(b as nat)) by (nonlinear_arith)
                requires
                    a == factorial_of((b - 1) as nat),
                    factorial_of(b as nat) == b * factorial_of((b - 1) as nat),
            ;
        }
        a = a * b;
    }
    a
}

/// A borrow of a temporary lives as long as the variable that holds it.
pub fn get_all_reference() {
    proof {
        reveal_with_fuel(factorial_of, 7);
        assert(factorial_of(6) == 720);
    }
    let r = &factorial(6);
    assert(*r + 1009 == 1729);
}

} // verus!
