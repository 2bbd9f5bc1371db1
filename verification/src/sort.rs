//! Ordering things by name.

use vstd::prelude::*;

use crate::text::characters;

verus! {

/// Whether a text comes before another, or is the same: by the first character in which
/// they differ, or else by length.
pub open spec fn not_after(left: Seq<char>, right: Seq<char>) -> bool
    decreases left.len(),
{
    if left.len() == 0 {
        true
    } else if right.len() == 0 {
        false
    } else if left[0] != right[0] {
        left[0] < right[0]
    } else {
        not_after(left.skip(1), right.skip(1))
    }
}

proof fn lemma_total(left: Seq<char>, right: Seq<char>)
    ensures
        not_after(left, right) || not_after(right, left),
    decreases left.len(),
{
    if left.len() > 0 && right.len() > 0 && left[0] == right[0] {
        lemma_total(left.skip(1), right.skip(1));
    }
}

proof fn lemma_transitive(left: Seq<char>, middle: Seq<char>, right: Seq<char>)
    requires
        not_after(left, middle),
        not_after(middle, right),
    ensures
        not_after(left, right),
    decreases left.len(),
{
    if left.len() > 0 && middle.len() > 0 && right.len() > 0 {
        if left[0] == middle[0] && middle[0] == right[0] {
            lemma_transitive(left.skip(1), middle.skip(1), right.skip(1));
        }
    }
}

/// Two texts of which neither comes after the other are the same.
pub proof fn law_order_tells_names_apart(left: Seq<char>, right: Seq<char>)
    requires
        not_after(left, right),
        not_after(right, left),
    ensures
        left == right,
    decreases left.len(),
{
    if left.len() > 0 && right.len() > 0 {
        law_order_tells_names_apart(left.skip(1), right.skip(1));
        assert(left =~= seq![left[0]] + left.skip(1));
        assert(right =~= seq![right[0]] + right.skip(1));
    } else {
        assert(left =~= right);
    }
}

/// Whether a text comes before another, or is the same.
pub fn in_order(left: &str, right: &str) -> (result: bool)
    ensures
        result == not_after(left@, right@),
{
    let first = characters(left);
    let second = characters(right);
    let mut index: usize = 0;
    proof {
        assert(left@.skip(0) =~= left@);
        assert(right@.skip(0) =~= right@);
    }
    while index < first.len() && index < second.len()
        invariant
            first@ == left@,
            second@ == right@,
            index <= first@.len(),
            index <= second@.len(),
            not_after(left@, right@) == not_after(
                left@.skip(index as int),
                right@.skip(index as int),
            ),
        decreases first@.len() - index,
    {
        proof {
            assert(left@.skip(index as int)[0] == left@[index as int]);
            assert(right@.skip(index as int)[0] == right@[index as int]);
            assert(left@.skip(index as int).skip(1) =~= left@.skip(index + 1));
            assert(right@.skip(index as int).skip(1) =~= right@.skip(index + 1));
        }
        if first[index] != second[index] {
            return first[index] < second[index];
        }
        index += 1;
    }
    index >= first.len()
}

/// Something with a name.
pub trait Named {
    /// The name.
    spec fn key(&self) -> Seq<char>;

    /// The name.
    fn name(&self) -> (name: &str)
        ensures
            name@ == self.key(),
    ;
}

/// Whether things are ordered by name.
pub open spec fn is_sorted<T: Named>(items: Seq<T>) -> bool {
    forall|i: int, j: int|
        0 <= i < j < items.len() ==> not_after((#[trigger] items[i]).key(), (#[trigger] items[j]).key())
}

/// What holds as many of each thing holds the same things.
pub proof fn lemma_same_things<T>(items: Seq<T>, sorted: Seq<T>, item: T)
    requires
        sorted.to_multiset() == items.to_multiset(),
    ensures
        sorted.contains(item) == items.contains(item),
{
    vstd::seq_lib::to_multiset_contains(sorted, item);
    vstd::seq_lib::to_multiset_contains(items, item);
}

/// Things whose names differ keep them apart in any other order.
pub proof fn law_names_stay_apart<T: Named>(items: Seq<T>, sorted: Seq<T>)
    requires
        sorted.to_multiset() == items.to_multiset(),
        forall|i: int, j: int|
            0 <= i < j < items.len() ==> (#[trigger] items[i]).key() != (#[trigger] items[j]).key(),
    ensures
        forall|i: int, j: int|
            0 <= i < j < sorted.len() ==> (#[trigger] sorted[i]).key() != (
            #[trigger] sorted[j]).key(),
{
    assert(items.no_duplicates());
    items.lemma_multiset_has_no_duplicates();
    sorted.lemma_multiset_has_no_duplicates_conv();
    assert forall|i: int, j: int| 0 <= i < j < sorted.len() implies (#[trigger] sorted[i]).key()
        != (#[trigger] sorted[j]).key() by {
        assert(sorted.contains(sorted[i]) && sorted.contains(sorted[j]));
        lemma_same_things(items, sorted, sorted[i]);
        lemma_same_things(items, sorted, sorted[j]);
        let a = items.index_of(sorted[i]);
        let b = items.index_of(sorted[j]);
        assert(items[a] == sorted[i] && items[b] == sorted[j]);
        assert(a != b);
    }
}

/// The same things, ordered by name.
pub fn sort_by_name<T: Named>(items: Vec<T>) -> (sorted: Vec<T>)
    ensures
        is_sorted(sorted@),
        sorted@.to_multiset() == items@.to_multiset(),
        sorted@.len() == items@.len(),
{
    let mut rest = items;
    let mut sorted: Vec<T> = Vec::new();
    let ghost whole = items@.to_multiset();
    proof {
        vstd::seq_lib::to_multiset_len(sorted@);
        assert(rest@.to_multiset().add(sorted@.to_multiset()) =~= whole);
    }
    while rest.len() > 0
        invariant
            is_sorted(sorted@),
            rest@.to_multiset().add(sorted@.to_multiset()) == whole,
            rest@.len() + sorted@.len() == items@.len(),
        decreases rest@.len(),
    {
        let ghost before = sorted@;
        let ghost full = rest@;
        let item = match rest.pop() {
            Some(item) => item,
            None => {
                return sorted;
            },
        };
        let ghost left = rest@;
        assert(full =~= left.push(item));
        let mut place: usize = 0;
        while place < sorted.len() && !in_order(item.name(), sorted[place].name())
            invariant
                place <= sorted@.len(),
                sorted@ == before,
                forall|i: int| 0 <= i < place ==> !not_after(item.key(), (#[trigger] before[i]).key()),
            ensures
                place < before.len() ==> not_after(item.key(), before[place as int].key()),
            decreases sorted@.len() - place,
        {
            place += 1;
        }
        sorted.insert(place, item);
        proof {
            vstd::seq_lib::to_multiset_insert(before, place as int, item);
            vstd::seq_lib::to_multiset_build(left, item);
            assert(left.push(item).to_multiset().add(before.to_multiset()) =~= left.to_multiset().add(
                sorted@.to_multiset(),
            ));
            assert forall|i: int, j: int| 0 <= i < j < sorted@.len() implies not_after(
                (#[trigger] sorted@[i]).key(),
                (#[trigger] sorted@[j]).key(),
            ) by {
                if j < place {
                    assert(sorted@[i] == before[i] && sorted@[j] == before[j]);
                } else if j == place {
                    assert(sorted@[i] == before[i]);
                    lemma_total(item.key(), before[i].key());
                } else if i < place {
                    assert(sorted@[i] == before[i] && sorted@[j] == before[j - 1]);
                } else if i == place {
                    assert(sorted@[j] == before[j - 1]);
                    if j - 1 > place {
                        lemma_transitive(
                            item.key(),
                            before[place as int].key(),
                            before[j - 1].key(),
                        );
                    }
                } else {
                    assert(sorted@[i] == before[i - 1] && sorted@[j] == before[j - 1]);
                }
            }
        }
    }
    proof {
        vstd::seq_lib::to_multiset_len(rest@);
        assert(rest@ =~= Seq::empty());
        assert(rest@.to_multiset().add(sorted@.to_multiset()) =~= sorted@.to_multiset());
    }
    sorted
}

} // verus!
