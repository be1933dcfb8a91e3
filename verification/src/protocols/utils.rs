//! Searching in slices.

use vstd::prelude::*;
use vstd::std_specs::cmp::PartialEqSpec;

verus! {

/// Whether `target` stands in `arr` at index `i`, element for element equal
/// as `==` of `T` has it.
pub open spec fn occurs_at<T: PartialEq>(arr: Seq<T>, target: Seq<T>, i: int) -> bool {
    &&& 0 <= i
    &&& i + target.len() <= arr.len()
    &&& forall|k: int| 0 <= k < target.len() ==> arr[i + k].eq_spec(&#[trigger] target[k])
}

/// Compares `target` with the elements of `arr` from index `at` on.
fn matches_at<T: PartialEq>(arr: &[T], target: &[T], at: usize) -> (r: bool)
    requires
        at + target@.len() <= arr@.len(),
    ensures
        T::obeys_eq_spec() ==> r == occurs_at(arr@, target@, at as int),
{
    let n: usize = target.len();
    let total: usize = arr.len();
    let mut j: usize = 0;
    while j < n
        invariant
            n == target@.len(),
            total == arr@.len(),
            at + n <= total,
            j <= n,
            T::obeys_eq_spec() ==> forall|k: int|
                0 <= k < j ==> arr@[at + k].eq_spec(&#[trigger] target@[k]),
        decreases n - j,
    {
        if arr[at + j] != target[j] {
            assert(T::obeys_eq_spec() ==> !arr@[at + j].eq_spec(&target@[j as int]));
            return false;
        }
        j = j + 1;
    }
    true
}

/// The first index at which `target` stands in `arr`. The empty target
/// stands at index 0. The result is stated for element types whose `==`
/// has a specification.
pub fn find_index_pos<T: PartialEq>(arr: &[T], target: &[T]) -> (r: Option<usize>)
    ensures
        T::obeys_eq_spec() ==> match r {
            Some(i) => occurs_at(arr@, target@, i as int) && forall|j: int|
                0 <= j < i ==> !occurs_at(arr@, target@, j),
            None => forall|j: int| !occurs_at(arr@, target@, j),
        },
{
    let arr_len: usize = arr.len();
    let target_len: usize = target.len();
    if arr_len < target_len {
        return None;
    }
    let last: usize = arr_len - target_len;
    let mut i: usize = 0;
    while i <= last
        invariant
            arr_len == arr@.len(),
            target_len == target@.len(),
            last == arr_len - target_len,
            i <= last + 1,
            T::obeys_eq_spec() ==> forall|j: int| 0 <= j < i ==> !occurs_at(arr@, target@, j),
        decreases last + 1 - i,
    {
        if matches_at(arr, target, i) {
            return Some(i);
        }
        if i == last {
            return None;
        }
        i = i + 1;
    }
    None
}

} // verus!
