//! The uniformity checker: confirms that a sequence of comparable values are
//! all equal, returning the common value, and a helper that drops the first
//! element of a vector.

use vstd::prelude::*;
use vstd::std_specs::cmp::PartialEqSpec;

verus! {

/// Returns the common value of `values` if and only if `values` is non-empty
/// and every element equals the first; an empty input or any divergent pair
/// yields `None`.
pub fn get_all_same<T: Copy + PartialEq>(values: &Vec<T>) -> (r: Option<T>)
    requires
        T::obeys_eq_spec(),
    ensures
        match r {
            Some(c) => values@.len() >= 1 && c == values@[0] && (forall|i: int|
                1 <= i < values@.len() ==> #[trigger] values@[i].eq_spec(&values@[0])),
            None => values@.len() == 0 || (exists|i: int|
                1 <= i < values@.len() && !(#[trigger] values@[i].eq_spec(&values@[0]))),
        },
{
    if values.len() == 0 {
        return None;
    }
    let first = values[0];
    let mut i: usize = 1;
    while i < values.len()
        invariant
            T::obeys_eq_spec(),
            1 <= i <= values@.len(),
            first == values@[0],
            forall|j: int| 1 <= j < i ==> #[trigger] values@[j].eq_spec(&values@[0]),
        decreases values@.len() - i,
    {
        if values[i] != first {
            return None;
        }
        i = i + 1;
    }
    Some(first)
}

/// Drops the first element of `values`; an empty vector is returned unchanged.
pub fn tail<T>(values: Vec<T>) -> (r: Vec<T>)
    ensures
        values@.len() == 0 ==> r@ == values@,
        values@.len() >= 1 ==> r@ == values@.skip(1),
{
    let mut v = values;
    if v.len() > 0 {
        v.remove(0);
        proof {
            assert(v@ =~= values@.skip(1));
        }
    }
    v
}

} // verus!
