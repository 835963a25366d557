//! The order of texts, and sorting.

use vstd::prelude::*;

use crate::text::chars_of;

verus! {

/// `left` comes before `right`, or equals it, in the order of their characters.
pub open spec fn text_le(left: Seq<char>, right: Seq<char>) -> bool
    decreases left.len(),
{
    if left.len() == 0 {
        true
    } else if right.len() == 0 {
        false
    } else if left[0] == right[0] {
        text_le(left.drop_first(), right.drop_first())
    } else {
        left[0] < right[0]
    }
}

/// Of two texts, one comes before the other or equals it.
pub proof fn lemma_text_le_total(left: Seq<char>, right: Seq<char>)
    ensures
        text_le(left, right) || text_le(right, left),
    decreases left.len(),
{
    if left.len() > 0 && right.len() > 0 {
        lemma_text_le_total(left.drop_first(), right.drop_first());
    }
}

/// The order of texts carries over from step to step.
pub proof fn lemma_text_le_transitive(a: Seq<char>, b: Seq<char>, c: Seq<char>)
    requires
        text_le(a, b),
        text_le(b, c),
    ensures
        text_le(a, c),
    decreases a.len(),
{
    if a.len() > 0 && a[0] == b[0] && b[0] == c[0] {
        lemma_text_le_transitive(a.drop_first(), b.drop_first(), c.drop_first());
    }
}

/// Two texts that each come before or equal the other are the same.
pub proof fn lemma_text_le_antisymmetric(a: Seq<char>, b: Seq<char>)
    requires
        text_le(a, b),
        text_le(b, a),
    ensures
        a == b,
    decreases a.len(),
{
    if a.len() > 0 {
        lemma_text_le_antisymmetric(a.drop_first(), b.drop_first());
        assert(a == seq![a[0]] + a.drop_first());
        assert(b == seq![b[0]] + b.drop_first());
    } else {
        assert(a == b);
    }
}

/// Whether `left` comes before `right`, or equals it.
pub fn comes_first(left: &str, right: &str) -> (yes: bool)
    ensures
        yes == text_le(left@, right@),
{
    let a = chars_of(left);
    let b = chars_of(right);
    let mut i: usize = 0;
    proof {
        assert(a@.skip(0) == a@);
        assert(b@.skip(0) == b@);
    }
    while i < a.len() && i < b.len() && a[i] == b[i]
        invariant
            a@ == left@,
            b@ == right@,
            i <= a@.len(),
            i <= b@.len(),
            text_le(left@, right@) == text_le(a@.skip(i as int), b@.skip(i as int)),
        decreases a@.len() - i,
    {
        assert(a@.skip(i as int).drop_first() == a@.skip(i + 1));
        assert(b@.skip(i as int).drop_first() == b@.skip(i + 1));
        i += 1;
    }
    if i == a.len() {
        true
    } else if i == b.len() {
        false
    } else {
        a[i] < b[i]
    }
}

/// What a list can be sorted by: a total order on its items.
pub trait Ranked: Sized {
    /// This item may stand before `other`.
    spec fn ranks_before(&self, other: &Self) -> bool;

    /// Any two items can be ordered.
    proof fn ranks_total(&self, other: &Self)
        ensures
            self.ranks_before(other) || other.ranks_before(self),
    ;

    /// The order carries over from step to step.
    proof fn ranks_transitive(&self, middle: &Self, other: &Self)
        requires
            self.ranks_before(middle),
            middle.ranks_before(other),
        ensures
            self.ranks_before(other),
    ;

    /// Whether this item may stand before `other`.
    fn may_precede(&self, other: &Self) -> (yes: bool)
        ensures
            yes == self.ranks_before(other),
    ;
}

/// `order` lists each index below `n` once.
pub open spec fn is_permutation(order: Seq<int>, n: int) -> bool {
    &&& order.len() == n
    &&& forall|i: int| 0 <= i < n ==> 0 <= #[trigger] order[i] < n
    &&& forall|i: int, j: int| 0 <= i < j < n ==> #[trigger] order[i] != #[trigger] order[j]
}

/// `sorted` holds the items of `items` in the order of their ranks; `order` says where each item
/// came from, and items of equal rank keep their order.
pub open spec fn sorted_along<T: Ranked>(sorted: Seq<T>, items: Seq<T>, order: Seq<int>) -> bool {
    &&& sorted.len() == items.len()
    &&& is_permutation(order, items.len() as int)
    &&& forall|i: int| 0 <= i < sorted.len() ==> #[trigger] sorted[i] == items[order[i]]
    &&& forall|i: int, j: int|
        #![trigger sorted[i], sorted[j]]
        0 <= i < j < sorted.len() ==> sorted[i].ranks_before(&sorted[j])
    &&& forall|i: int, j: int|
        #![trigger sorted[i], sorted[j]]
        0 <= i < j < sorted.len() && sorted[j].ranks_before(&sorted[i]) ==> order[i] < order[j]
}

/// `sorted` holds the items of `items`, sorted; items of equal rank keep their order.
pub open spec fn is_sorting_of<T: Ranked>(sorted: Seq<T>, items: Seq<T>) -> bool {
    exists|order: Seq<int>| sorted_along(sorted, items, order)
}

/// Where `item` goes into `sorted`: behind the items that may stand before it.
fn place_for<T: Ranked>(sorted: &Vec<T>, item: &T) -> (at: usize)
    requires
        forall|i: int, j: int|
            #![trigger sorted@[i], sorted@[j]]
            0 <= i < j < sorted@.len() ==> sorted@[i].ranks_before(&sorted@[j]),
    ensures
        at <= sorted@.len(),
        forall|i: int| 0 <= i < at ==> (#[trigger] sorted@[i]).ranks_before(item),
        forall|i: int| at <= i < sorted@.len() ==> !(#[trigger] sorted@[i]).ranks_before(item),
{
    let mut at: usize = sorted.len();
    while at > 0 && !sorted[at - 1].may_precede(item)
        invariant
            at <= sorted@.len(),
            forall|i: int| at <= i < sorted@.len() ==> !(#[trigger] sorted@[i]).ranks_before(item),
        decreases at,
    {
        at -= 1;
    }
    proof {
        assert forall|i: int| 0 <= i < at implies (#[trigger] sorted@[i]).ranks_before(item) by {
            if i < at - 1 {
                assert(sorted@[i].ranks_before(&sorted@[at - 1]));
                sorted@[i].ranks_transitive(&sorted@[at - 1], item);
            }
        }
    }
    at
}

/// A list in the opposite order.
pub fn reversed<T>(items: Vec<T>) -> (reversed: Vec<T>)
    ensures
        reversed@ == items@.reverse(),
{
    let ghost all = items@;
    let mut waiting = items;
    let mut reversed: Vec<T> = Vec::new();
    while waiting.len() > 0
        invariant
            reversed@.len() + waiting@.len() == all.len(),
            waiting@ == all.take(waiting@.len() as int),
            forall|i: int| 0 <= i < reversed@.len() ==> #[trigger] reversed@[i] == all[all.len() - 1 - i],
        decreases waiting@.len(),
    {
        match waiting.pop() {
            Some(item) => {
                reversed.push(item);
            },
            None => {},
        }
    }
    assert(reversed@ =~= all.reverse());
    reversed
}

/// The items that are there, in their order.
pub open spec fn present<T>(items: Seq<Option<T>>) -> Seq<T> {
    items.filter(|item: Option<T>| item is Some).map_values(|item: Option<T>| item->0)
}

/// Leaves out what is not there.
pub fn present_items<T>(items: Vec<Option<T>>) -> (found: Vec<T>)
    ensures
        found@ == present(items@),
{
    let ghost all = items@;
    let ghost keep = |item: Option<T>| item is Some;
    let mut waiting = reversed(items);
    let mut found: Vec<T> = Vec::new();
    let ghost mut seen: int = 0;
    while waiting.len() > 0
        invariant
            seen + waiting@.len() == all.len(),
            0 <= seen,
            keep == (|item: Option<T>| item is Some),
            forall|i: int| 0 <= i < waiting@.len() ==> #[trigger] waiting@[i] == all[all.len() - 1 - i],
            found@ == all.take(seen).filter(keep).map_values(|item: Option<T>| item->0),
        decreases waiting@.len(),
    {
        proof {
            reveal(Seq::filter);
            assert(all.take(seen + 1).drop_last() == all.take(seen));
        }
        let ghost before = all.take(seen).filter(keep);
        match waiting.pop() {
            Some(Some(item)) => {
                assert(all[seen] == Some(item));
                found.push(item);
                assert(before.push(all[seen]).map_values(|item: Option<T>| item->0) =~= found@);
            },
            _ => {
                assert(all[seen] is None);
            },
        }
        proof {
            seen = seen + 1;
        }
    }
    assert(all.take(seen) == all);
    found
}

/// Sorts a list; items of equal rank keep their order.
pub fn sort<T: Ranked>(items: Vec<T>) -> (sorted: Vec<T>)
    ensures
        is_sorting_of(sorted@, items@),
{
    let ghost all = items@;
    let mut reversed = reversed(items);
    let mut sorted: Vec<T> = Vec::new();
    let ghost mut order: Seq<int> = Seq::empty();
    while reversed.len() > 0
        invariant
            sorted@.len() + reversed@.len() == all.len(),
            forall|i: int| 0 <= i < reversed@.len() ==> #[trigger] reversed@[i] == all[all.len() - 1 - i],
            sorted_along(sorted@, all.take(sorted@.len() as int), order),
        decreases reversed@.len(),
    {
        let ghost before = sorted@;
        let ghost old_order = order;
        let ghost n = sorted@.len() as int;
        let item = reversed.pop();
        match item {
            Some(item) => {
                let at: usize = place_for(&sorted, &item);
                assert(item == all[n]);
                sorted.insert(at, item);
                proof {
                    order = old_order.insert(at as int, n);
                    lemma_insert(before, all.take(n), old_order, item, at as int);
                    assert(all.take(n + 1) == all.take(n).push(item));
                }
            },
            None => {},
        }
    }
    assert(all.take(sorted@.len() as int) == all);
    assert(sorted_along(sorted@, all, order));
    sorted
}

/// Putting one more item behind those that may stand before it keeps a list sorted.
proof fn lemma_insert<T: Ranked>(sorted: Seq<T>, items: Seq<T>, order: Seq<int>, item: T, at: int)
    requires
        sorted_along(sorted, items, order),
        0 <= at <= sorted.len(),
        forall|i: int| 0 <= i < at ==> (#[trigger] sorted[i]).ranks_before(&item),
        forall|i: int| at <= i < sorted.len() ==> !(#[trigger] sorted[i]).ranks_before(&item),
    ensures
        sorted_along(
            sorted.insert(at, item),
            items.push(item),
            order.insert(at, items.len() as int),
        ),
{
    let n = items.len() as int;
    let after = sorted.insert(at, item);
    let after_order = order.insert(at, n);
    let from = |i: int| if i < at { i } else { i - 1 };
    assert forall|i: int| 0 <= i < n + 1 implies 0 <= #[trigger] after_order[i] < n + 1 by {
        if i != at {
            assert(after_order[i] == order[from(i)]);
        }
    }
    assert forall|i: int, j: int| 0 <= i < j < n + 1 implies #[trigger] after_order[i]
        != #[trigger] after_order[j] by {
        if i != at && j != at {
            assert(after_order[i] == order[from(i)]);
            assert(after_order[j] == order[from(j)]);
        } else if i != at {
            assert(after_order[i] == order[from(i)]);
        } else {
            assert(after_order[j] == order[from(j)]);
        }
    }
    assert forall|i: int| 0 <= i < n + 1 implies #[trigger] after[i] == items.push(item)[after_order[i]] by {
        if i != at {
            assert(after[i] == sorted[from(i)]);
            assert(after_order[i] == order[from(i)]);
        }
    }
    assert forall|i: int, j: int|
        #![trigger after[i], after[j]]
        0 <= i < j < n + 1 implies after[i].ranks_before(&after[j]) by {
        if i != at && j != at {
            assert(after[i] == sorted[from(i)]);
            assert(after[j] == sorted[from(j)]);
        } else if j == at {
            assert(after[i] == sorted[i]);
        } else {
            assert(after[j] == sorted[j - 1]);
            item.ranks_total(&sorted[j - 1]);
        }
    }
    assert forall|i: int, j: int|
        #![trigger after[i], after[j]]
        0 <= i < j < n + 1 && after[j].ranks_before(&after[i]) implies after_order[i]
        < after_order[j] by {
        if i != at && j != at {
            assert(after[i] == sorted[from(i)]);
            assert(after[j] == sorted[from(j)]);
            assert(after_order[i] == order[from(i)]);
            assert(after_order[j] == order[from(j)]);
        } else if j == at {
            assert(after_order[i] == order[from(i)]);
        } else {
            assert(after[j] == sorted[j - 1]);
        }
    }
}

/// Of two texts, the first place at which they differ decides which comes first; a text comes before
/// those that go on after it.
pub proof fn law_texts_are_ordered_by_their_first_difference(left: Seq<char>, right: Seq<char>, at: int)
    requires
        0 <= at <= left.len(),
        at <= right.len(),
        left.take(at) == right.take(at),
    ensures
        at < left.len() && at < right.len() && left[at] < right[at] ==> text_le(left, right) && !text_le(right, left),
        at == left.len() ==> text_le(left, right),
        at == left.len() && at < right.len() ==> !text_le(right, left),
    decreases at,
{
    if at > 0 {
        assert(left.take(at)[0] == left[0] && right.take(at)[0] == right[0]);
        assert(left.drop_first().take(at - 1) =~= left.take(at).drop_first());
        assert(right.drop_first().take(at - 1) =~= right.take(at).drop_first());
        law_texts_are_ordered_by_their_first_difference(left.drop_first(), right.drop_first(), at - 1);
    }
}

/// What is there of two lists is what is there of the one and then of the other; an item that is
/// there is kept, and one that is not is left out.
pub proof fn law_what_is_there_is_kept<T>(left: Seq<Option<T>>, right: Seq<Option<T>>, item: T)
    ensures
        present(left + right) == present(left) + present(right),
        present(seq![Some(item)]) == seq![item],
        present(seq![None::<T>]) == Seq::<T>::empty(),
    decreases right.len(),
{
    reveal(Seq::filter);
    let keep = |item: Option<T>| item is Some;
    assert(seq![Some(item)].drop_last() =~= Seq::<Option<T>>::empty());
    assert(seq![None::<T>].drop_last() =~= Seq::<Option<T>>::empty());
    reveal_with_fuel(Seq::filter, 2);
    assert(present(seq![Some(item)]) =~= seq![item]);
    assert(present(seq![None::<T>]) =~= Seq::<T>::empty());
    if right.len() == 0 {
        assert(left + right =~= left);
        assert(present(right) =~= Seq::<T>::empty());
        assert(present(left) + present(right) =~= present(left));
    } else {
        let rest = right.drop_last();
        assert((left + right).drop_last() =~= left + rest);
        law_what_is_there_is_kept(left, rest, item);
        assert((left + right).last() == right.last());
        assert(present(left + right) =~= present(left) + present(right));
    }
}

/// Sorting keeps all items, each as often as it was there: it only puts them in another order.
pub proof fn law_sorting_keeps_the_items<T: Ranked>(sorted: Seq<T>, items: Seq<T>, i: int)
    requires
        is_sorting_of(sorted, items),
        0 <= i < items.len(),
    ensures
        sorted.len() == items.len(),
        exists|j: int| 0 <= j < sorted.len() && #[trigger] sorted[j] == items[i],
        forall|j: int| 0 <= j < sorted.len() ==> items.contains(#[trigger] sorted[j]),
{
    let order = choose|order: Seq<int>| sorted_along(sorted, items, order);
    lemma_permutation_reaches(order, items.len() as int, i);
    let j = choose|j: int| 0 <= j < order.len() && #[trigger] order[j] == i;
    assert(sorted[j] == items[i]);
}

/// A permutation reaches every index.
proof fn lemma_permutation_reaches(order: Seq<int>, n: int, i: int)
    requires
        is_permutation(order, n),
        0 <= i < n,
    ensures
        exists|j: int| 0 <= j < n && #[trigger] order[j] == i,
{
    if forall|j: int| 0 <= j < n ==> #[trigger] order[j] != i {
        assert(order.no_duplicates());
        let all = Set::new(|k: int| 0 <= k < n && k != i);
        assert(order.to_set().subset_of(all)) by {
            assert forall|k: int| order.to_set().contains(k) implies all.contains(k) by {
                let j = choose|j: int| 0 <= j < order.len() && order[j] == k;
                assert(order[j] == k);
            }
        }
        order.unique_seq_to_set();
        vstd::set_lib::lemma_int_range(0, n);
        let whole = vstd::set_lib::set_int_range(0, n);
        assert(all =~= whole.remove(i));
        vstd::set_lib::lemma_len_subset(order.to_set(), all);
        assert(false);
    }
}

} // verus!
