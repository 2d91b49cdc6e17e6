//! The finalizer by which the operator holds back the deletion of an `Echo`
//! until the objects managed for it are gone.

use crate::text::same_text;
use vstd::prelude::*;

verus! {

/// The finalizer of this operator.
pub const FINALIZER: &'static str = "echoes.example.com/finalizer";

/// The test for being `item`.
pub open spec fn is_item(item: Seq<char>) -> spec_fn(Seq<char>) -> bool {
    |entry: Seq<char>| entry == item
}

/// The test for being another entry than the operator's finalizer.
pub open spec fn is_foreign() -> spec_fn(Seq<char>) -> bool {
    |entry: Seq<char>| entry != FINALIZER@
}

/// How often `item` stands in `list`.
pub open spec fn occurrences(list: Seq<Seq<char>>, item: Seq<char>) -> nat {
    list.filter(is_item(item)).len()
}

/// `list` with the operator's finalizer in it: unchanged where it is there
/// already, with the finalizer at the end where it is not.
pub open spec fn with_finalizer(list: Seq<Seq<char>>) -> Seq<Seq<char>> {
    if list.contains(FINALIZER@) {
        list
    } else {
        list.push(FINALIZER@)
    }
}

/// `list` without the operator's finalizer; the other entries stay in order.
pub open spec fn without_finalizer(list: Seq<Seq<char>>) -> Seq<Seq<char>> {
    list.filter(is_foreign())
}

/// Tells whether the operator's finalizer is among `finalizers`.
pub fn is_held(finalizers: &Vec<String>) -> (held: bool)
    ensures
        held == finalizers.deep_view().contains(FINALIZER@),
{
    let ghost list = finalizers.deep_view();
    let mut i: usize = 0;
    while i < finalizers.len()
        invariant
            i <= finalizers.len(),
            list == finalizers.deep_view(),
            forall|j: int| 0 <= j < i ==> list[j] != FINALIZER@,
        decreases finalizers.len() - i,
    {
        if same_text(finalizers[i].as_str(), FINALIZER) {
            assert(list[i as int] == FINALIZER@);
            return true;
        }
        i += 1;
    }
    false
}

/// The list of finalizers to write so that the operator's is among them.
pub fn add(finalizers: &Vec<String>) -> (out: Vec<String>)
    ensures
        out.deep_view() == with_finalizer(finalizers.deep_view()),
{
    let mut out = crate::meta::clone_strings(finalizers);
    if !is_held(finalizers) {
        out.push(FINALIZER.to_owned());
    }
    out
}

/// The list of finalizers to write so that the operator's is gone.
pub fn delete(finalizers: &Vec<String>) -> (out: Vec<String>)
    ensures
        out.deep_view() == without_finalizer(finalizers.deep_view()),
{
    let ghost list = finalizers.deep_view();
    let ghost others = is_foreign();
    let mut out: Vec<String> = Vec::new();
    let mut i: usize = 0;
    while i < finalizers.len()
        invariant
            i <= finalizers.len(),
            list == finalizers.deep_view(),
            others == is_foreign(),
            out.deep_view() == list.take(i as int).filter(others),
        decreases finalizers.len() - i,
    {
        if !same_text(finalizers[i].as_str(), FINALIZER) {
            out.push(finalizers[i].clone());
        }
        proof {
            list.take(i as int).lemma_filter_push(list[i as int], others);
            assert(list.take(i as int).push(list[i as int]) =~= list.take(i + 1));
        }
        i += 1;
    }
    assert(list.take(i as int) =~= list);
    out
}

/// Adding a new entry raises the count of that entry by one and no other.
pub proof fn lemma_occurrences_push(list: Seq<Seq<char>>, entry: Seq<char>, item: Seq<char>)
    ensures
        occurrences(list.push(entry), item) == occurrences(list, item) + if entry == item {
            1nat
        } else {
            0nat
        },
{
    list.lemma_filter_push(entry, is_item(item));
}

/// An item that stands nowhere in a list is counted zero times, and one
/// that stands somewhere at least once.
pub proof fn lemma_occurrences_contains(list: Seq<Seq<char>>, item: Seq<char>)
    ensures
        list.contains(item) <==> occurrences(list, item) >= 1,
    decreases list.len(),
{
    if list.len() > 0 {
        let front = list.drop_last();
        assert(front.push(list.last()) =~= list);
        lemma_occurrences_contains(front, item);
        lemma_occurrences_push(front, list.last(), item);
    }
}

/// In a list without duplicates nothing is counted twice.
pub proof fn lemma_occurrences_distinct(list: Seq<Seq<char>>, item: Seq<char>)
    requires
        list.no_duplicates(),
    ensures
        occurrences(list, item) <= 1,
    decreases list.len(),
{
    if list.len() > 0 {
        let front = list.drop_last();
        assert(front.push(list.last()) =~= list);
        lemma_occurrences_distinct(front, item);
        lemma_occurrences_push(front, list.last(), item);
        lemma_occurrences_contains(front, item);
    }
}

/// Once the finalizer is added, a list without duplicates holds it exactly
/// once, and still has no duplicates.
pub proof fn lemma_added_once(list: Seq<Seq<char>>)
    requires
        list.no_duplicates(),
    ensures
        occurrences(with_finalizer(list), FINALIZER@) == 1,
        with_finalizer(list).no_duplicates(),
{
    lemma_occurrences_contains(list, FINALIZER@);
    lemma_occurrences_distinct(list, FINALIZER@);
    lemma_occurrences_push(list, FINALIZER@, FINALIZER@);
}

/// Adding the finalizer a second time changes nothing.
pub proof fn lemma_add_idempotent(list: Seq<Seq<char>>)
    ensures
        with_finalizer(with_finalizer(list)) == with_finalizer(list),
{
    if !list.contains(FINALIZER@) {
        assert(list.push(FINALIZER@)[list.len() as int] == FINALIZER@);
    }
}

/// Once the finalizer is removed it is not in the list, and every other
/// entry is counted as before.
pub proof fn lemma_removed(list: Seq<Seq<char>>, item: Seq<char>)
    ensures
        !without_finalizer(list).contains(FINALIZER@),
        item != FINALIZER@ ==> occurrences(without_finalizer(list), item) == occurrences(
            list,
            item,
        ),
    decreases list.len(),
{
    let others = is_foreign();
    if list.len() > 0 {
        let front = list.drop_last();
        assert(front.push(list.last()) =~= list);
        lemma_removed(front, item);
        front.lemma_filter_push(list.last(), others);
        lemma_occurrences_push(front, list.last(), item);
        if list.last() != FINALIZER@ {
            lemma_occurrences_push(without_finalizer(front), list.last(), item);
            let kept = without_finalizer(front);
            if kept.push(list.last()).contains(FINALIZER@) {
                let at = choose|i: int|
                    0 <= i < kept.push(list.last()).len() && kept.push(list.last())[i]
                        == FINALIZER@;
            }
        }
    }
}

} // verus!
