//! Small helpers shared by the models of the data types.

use vstd::prelude::*;

verus! {

/// The views of the items of a sequence, in order.
pub open spec fn views<T: View>(items: Seq<T>) -> Seq<T::V> {
    Seq::new(items.len(), |i: int| items[i]@)
}

/// The characters of an optional string.
pub open spec fn opt_chars(text: Option<String>) -> Option<Seq<char>> {
    match text {
        Some(s) => Some(s@),
        None => None,
    }
}

/// The characters of an optional text, none standing for the empty text.
pub open spec fn chars_or_empty(text: Option<Seq<char>>) -> Seq<char> {
    match text {
        Some(s) => s,
        None => Seq::empty(),
    }
}

/// Taking one more item of a sequence adds that item's view at the end.
pub proof fn lemma_views_take_next<T: View>(items: Seq<T>, n: int)
    requires
        0 <= n < items.len(),
    ensures
        views(items.take(n + 1)) == views(items.take(n)).push(items[n]@),
        views(items.take(n + 1)).drop_last() == views(items.take(n)),
        views(items).take(n + 1) == views(items.take(n + 1)),
        views(items).take(n) == views(items.take(n)),
{
    assert(views(items.take(n + 1)) =~= views(items.take(n)).push(items[n]@));
    assert(views(items.take(n + 1)).drop_last() =~= views(items.take(n)));
    assert(views(items).take(n + 1) =~= views(items.take(n + 1)));
    assert(views(items).take(n) =~= views(items.take(n)));
}

/// The position of the first item that meets a condition, or the number of
/// items if none does.
pub open spec fn first_index<A>(items: Seq<A>, meets: spec_fn(A) -> bool) -> int
    decreases items.len(),
{
    if items.len() == 0 {
        0
    } else if meets(items[0]) {
        0
    } else {
        1 + first_index(items.drop_first(), meets)
    }
}

/// What `first_index` finds: no item before it meets the condition, and the
/// item there, if there is one, does.
pub proof fn lemma_first_index<A>(items: Seq<A>, meets: spec_fn(A) -> bool)
    ensures
        0 <= first_index(items, meets) <= items.len(),
        forall|j: int| 0 <= j < first_index(items, meets) ==> !meets(#[trigger] items[j]),
        first_index(items, meets) < items.len() ==> meets(items[first_index(items, meets)]),
    decreases items.len(),
{
    if items.len() == 0 {
    } else if meets(items[0]) {
    } else {
        let rest = items.drop_first();
        lemma_first_index(rest, meets);
        assert forall|j: int| 0 <= j < first_index(items, meets) implies !meets(#[trigger] items[j]) by {
            if j > 0 {
                assert(items[j] == rest[j - 1]);
            }
        }
        if first_index(items, meets) < items.len() {
            assert(items[first_index(items, meets)] == rest[first_index(rest, meets)]);
        }
    }
}

/// A place with no item meeting the condition before it, which holds one
/// that does or is the end, is the place that `first_index` finds.
pub proof fn lemma_first_index_is<A>(items: Seq<A>, meets: spec_fn(A) -> bool, at: int)
    requires
        0 <= at <= items.len(),
        forall|j: int| 0 <= j < at ==> !meets(#[trigger] items[j]),
        at < items.len() ==> meets(items[at]),
    ensures
        first_index(items, meets) == at,
{
    lemma_first_index(items, meets);
    let found = first_index(items, meets);
    if found < at {
        assert(!meets(items[found]));
    } else if at < found {
        assert(!meets(items[at]));
    }
}

/// `str` equality. Trusted: two strings compare equal exactly when they hold
/// the same characters.
#[verifier::external_body]
pub(crate) fn str_eq(a: &str, b: &str) -> (same: bool)
    ensures
        same == (a@ == b@),
{
    a == b
}

} // verus!
