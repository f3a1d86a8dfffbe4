//! Positional alignment and ordering, both taken from `itertools`.

use itertools::EitherOrBoth;
use itertools::Itertools;
use vstd::prelude::*;

verus! {

/// The larger of two lengths.
pub open spec fn longest(a: nat, b: nat) -> nat {
    if a >= b {
        a
    } else {
        b
    }
}

/// Pairs the items of two sequences by position, going on past the end of the
/// shorter one.
///
/// Trusted: the body calls `itertools::Itertools::zip_longest` on the two
/// slice iterators. The contract restates what that adaptor yields: one entry
/// per position up to the longer length, holding the item of each side that
/// still has one at that position (`Both`, `Left` or `Right` there).
#[verifier::external_body]
pub(crate) fn zip_longest<'a, T>(left: &'a Vec<T>, right: &'a Vec<T>) -> (pairs: Vec<
    (Option<&'a T>, Option<&'a T>),
>)
    ensures
        pairs@.len() == longest(left@.len(), right@.len()),
        forall|i: int|
            0 <= i < pairs@.len() ==> (#[trigger] pairs@[i]).0 == (if i < left@.len() {
                Some(&left@[i])
            } else {
                None::<&T>
            }),
        forall|i: int|
            0 <= i < pairs@.len() ==> (#[trigger] pairs@[i]).1 == (if i < right@.len() {
                Some(&right@[i])
            } else {
                None::<&T>
            }),
{
    left.iter().zip_longest(right.iter()).map(
        |pair| match pair {
            EitherOrBoth::Both(l, r) => (Some(l), Some(r)),
            EitherOrBoth::Left(l) => (Some(l), None),
            EitherOrBoth::Right(r) => (None, Some(r)),
        },
    ).collect()
}

/// Whether `s` never descends from one position to a later one.
pub open spec fn ascending(s: Seq<u8>) -> bool {
    forall|i: int, j: int| 0 <= i <= j < s.len() ==> s[i] <= s[j]
}

/// The numbers of `items`, in ascending order.
///
/// Trusted: the body calls `itertools::Itertools::sorted`, which collects the
/// items and sorts them with the standard slice sort. The contract claims that
/// the result holds the same numbers, each as often as before, and ascends.
#[verifier::external_body]
pub(crate) fn sorted(items: &Vec<u8>) -> (ordered: Vec<u8>)
    ensures
        ordered@.to_multiset() == items@.to_multiset(),
        ascending(ordered@),
{
    items.iter().sorted().cloned().collect()
}

} // verus!
